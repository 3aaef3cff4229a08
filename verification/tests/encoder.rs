use img2svg::defs::SVGDefs;
use img2svg::doc::svg_from_grid;
use img2svg::emit::{new_box, rect_elements};
use img2svg::grid::{Pixel, PixelGrid};
use img2svg::markup::{new_box_without_pos, rgb_to_hex, u64_dec_str};
use img2svg::grid::Color;
use img2svg::scan::{scan_runs, Run};

fn px(r: u8, g: u8, b: u8, a: u8) -> Pixel {
    Pixel { r, g, b, a }
}

fn grid(width: u32, height: u32, pixels: Vec<Pixel>) -> PixelGrid {
    PixelGrid::new(width, height, pixels).expect("consistent buffer")
}

#[test]
fn dec_str_exact() {
    assert_eq!(u64_dec_str(0), "0");
    assert_eq!(u64_dec_str(7), "7");
    assert_eq!(u64_dec_str(10), "10");
    assert_eq!(u64_dec_str(1234567890), "1234567890");
}

#[test]
fn hex_color_exact() {
    assert_eq!(rgb_to_hex(255, 0, 0), "#FF0000");
    assert_eq!(rgb_to_hex(0, 0, 0), "#000000");
    assert_eq!(rgb_to_hex(0x12, 0x34, 0x56), "#123456");
    assert_eq!(rgb_to_hex(0xAB, 0xCD, 0xEF), "#ABCDEF");
}

#[test]
fn box_strings_exact() {
    assert_eq!(
        new_box_without_pos(2, 255, 0, 0),
        "<rect width='2.2' height='1.2' fill='#FF0000'></rect>"
    );
    let mut defs = SVGDefs::new();
    let first = new_box(2, 0, 0, 255, 0, 0, &mut defs);
    assert_eq!(
        first,
        "<rect width='2.2' height='1.2' x='0' y='0' fill='#FF0000'></rect>"
    );
    let second = new_box(2, 3, 1, 255, 0, 0, &mut defs);
    assert_eq!(second, "<use x='3' y='1' href='#0'></use>");
}

#[test]
fn mismatched_buffer_is_rejected() {
    assert!(PixelGrid::new(2, 2, vec![px(0, 0, 0, 255); 3]).is_none());
    assert!(PixelGrid::new(2, 2, vec![px(0, 0, 0, 255); 4]).is_some());
}

#[test]
fn two_identical_opaque_pixels_make_one_run() {
    let g = grid(2, 1, vec![px(255, 0, 0, 255), px(255, 0, 0, 255)]);
    let runs = scan_runs(&g);
    assert_eq!(runs.len(), 1);
    assert_eq!((runs[0].x, runs[0].y, runs[0].width), (0, 0, 2));
    assert_eq!((runs[0].color.r, runs[0].color.g, runs[0].color.b), (255, 0, 0));
    let (defs, lines) = rect_elements(&runs);
    assert_eq!(defs.defs.len(), 1);
    assert_eq!(lines.len(), 1);
    assert!(lines[0].starts_with("<rect "));
}

#[test]
fn two_different_pixels_make_two_runs() {
    let g = grid(2, 1, vec![px(255, 0, 0, 255), px(0, 255, 0, 255)]);
    let runs = scan_runs(&g);
    assert_eq!(runs.len(), 2);
    assert_eq!((runs[0].x, runs[0].y, runs[0].width), (0, 0, 1));
    assert_eq!((runs[1].x, runs[1].y, runs[1].width), (1, 0, 1));
    let (defs, lines) = rect_elements(&runs);
    assert_eq!(defs.defs.len(), 2);
    assert_eq!(lines.len(), 2);
    assert!(lines[0].starts_with("<rect "));
    assert!(lines[1].starts_with("<rect "));
}

#[test]
fn uniform_single_row_document() {
    let g = grid(2, 1, vec![px(255, 0, 0, 255); 2]);
    assert_eq!(
        svg_from_grid(&g),
        "<svg viewBox='0 0 2 1' xmlns='http://www.w3.org/2000/svg'>\
         <defs><g id='0'><rect width='2.2' height='1.2' fill='#FF0000'></rect></g></defs>\
         <rect width='2.2' height='1.2' x='0' y='0' fill='#FF0000'></rect></svg>"
    );
}

#[test]
fn repeated_shape_is_reused_not_redefined() {
    // Two rows of the same uniform color: the second row's run has the same
    // signature, so it references definition 0 instead of redefining it.
    let g = grid(2, 2, vec![px(0, 0, 255, 255); 4]);
    let runs = scan_runs(&g);
    assert_eq!(runs.len(), 2);
    let (defs, lines) = rect_elements(&runs);
    assert_eq!(defs.defs.len(), 1);
    assert_eq!(lines.len(), 2);
    assert!(lines[0].starts_with("<rect "));
    assert_eq!(lines[1], "<use x='0' y='1' href='#0'></use>");
}

#[test]
fn lookup_or_create_is_new_flags() {
    let mut defs = SVGDefs::new();
    let key_a = new_box_without_pos(3, 10, 20, 30);
    let key_b = new_box_without_pos(4, 10, 20, 30);
    assert_eq!(defs.lookup_or_create(&key_a), (0, true));
    assert_eq!(defs.lookup_or_create(&key_a), (0, false));
    assert_eq!(defs.lookup_or_create(&key_b), (1, true));
    assert_eq!(defs.lookup_or_create(&key_a), (0, false));
    assert_eq!(defs.lookup_or_create(&key_b), (1, false));
}

#[test]
fn signature_ignores_position() {
    let a = Run { color: Color { r: 1, g: 2, b: 3 }, width: 5, x: 0, y: 0 };
    let b = Run { color: Color { r: 1, g: 2, b: 3 }, width: 5, x: 9, y: 7 };
    let c = Run { color: Color { r: 1, g: 2, b: 3 }, width: 6, x: 0, y: 0 };
    assert_eq!(a.signature(), b.signature());
    assert_ne!(a.signature(), c.signature());
}

#[test]
fn scan_is_deterministic() {
    let g = grid(
        3,
        2,
        vec![
            px(1, 2, 3, 255),
            px(1, 2, 3, 255),
            px(9, 9, 9, 255),
            px(0, 0, 0, 0),
            px(1, 2, 3, 128),
            px(1, 2, 3, 255),
        ],
    );
    let first = scan_runs(&g);
    let second = scan_runs(&g);
    assert_eq!(first.len(), second.len());
    for (a, b) in first.iter().zip(second.iter()) {
        assert_eq!((a.x, a.y, a.width, a.color), (b.x, b.y, b.width, b.color));
    }
    assert_eq!(svg_from_grid(&g), svg_from_grid(&g));
}

#[test]
fn transparent_image_yields_empty_document() {
    let g = grid(2, 2, vec![px(0, 0, 0, 0); 4]);
    let runs = scan_runs(&g);
    assert_eq!(runs.len(), 0);
    assert_eq!(
        svg_from_grid(&g),
        "<svg viewBox='0 0 2 2' xmlns='http://www.w3.org/2000/svg'><defs></defs></svg>"
    );
}

#[test]
fn transparent_pixel_terminates_a_run() {
    // visible, transparent, visible: two runs of width 1, not one of width 3.
    let g = grid(3, 1, vec![px(5, 5, 5, 255), px(0, 0, 0, 0), px(5, 5, 5, 255)]);
    let runs = scan_runs(&g);
    assert_eq!(runs.len(), 2);
    assert_eq!((runs[0].x, runs[0].width), (0, 1));
    assert_eq!((runs[1].x, runs[1].width), (2, 1));
}

#[test]
fn runs_never_cross_rows_or_exceed_width() {
    // A uniform color across a row boundary still closes at the edge.
    let g = grid(3, 2, vec![px(7, 7, 7, 255); 6]);
    let runs = scan_runs(&g);
    assert_eq!(runs.len(), 2);
    for r in &runs {
        assert!(r.width >= 1);
        assert!(r.x + r.width <= 3);
    }
    assert_eq!((runs[0].x, runs[0].y, runs[0].width), (0, 0, 3));
    assert_eq!((runs[1].x, runs[1].y, runs[1].width), (0, 1, 3));
}

#[test]
fn alpha_change_alone_does_not_split_a_visible_run() {
    // Same RGB, different non-zero alpha: one run, color equality reads the
    // three RGB channels only.
    let g = grid(2, 1, vec![px(8, 8, 8, 255), px(8, 8, 8, 100)]);
    let runs = scan_runs(&g);
    assert_eq!(runs.len(), 1);
    assert_eq!(runs[0].width, 2);
}
