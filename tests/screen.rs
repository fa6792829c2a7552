use photon_atom::screen::{fade, ring_at, RING_MARK};
use photon_atom::text::render_text;

fn at(x: usize, y: usize) -> usize {
    (y * 320 + x) * 4
}

#[test]
fn fade_floors_at_zero() {
    let mut frame = vec![10u8, 3, 4, 5, 255, 0, 1, 2];
    fade(&mut frame);
    assert_eq!(frame, vec![6, 0, 0, 1, 251, 0, 0, 0]);
}

#[test]
fn ring_markers_at_shell_spacings() {
    assert!(ring_at(120 * 320 + 160));
    assert!(ring_at(120 * 320 + 180));
    assert!(ring_at(100 * 320 + 160));
    assert!(ring_at(120 * 320 + 80));
    assert!(!ring_at(120 * 320 + 170));
    assert!(!ring_at(120 * 320 + 260));
    assert!(!ring_at(120 * 320 + 60));
    assert!(ring_at(120 * 320 + 174) == false);
    assert!(ring_at(134 * 320 + 174));
    assert!(!ring_at(usize::MAX / 4));
}

#[test]
fn fade_marks_rings() {
    let mut frame = vec![200u8; 320 * 240 * 4];
    fade(&mut frame);
    assert_eq!(&frame[at(180, 120)..at(180, 120) + 4], &[RING_MARK; 4]);
    assert_eq!(&frame[at(170, 120)..at(170, 120) + 4], &[196; 4]);
}

#[test]
fn text_draws_a_glyph() {
    let mut frame = vec![9u8; 320 * 240 * 4];
    assert!(render_text(0, 0, &vec!['A'], &mut frame));
    assert_eq!(&frame[at(0, 0)..at(0, 0) + 4], &[0, 0, 0, 255]);
    assert_eq!(&frame[at(2, 0)..at(2, 0) + 4], &[255; 4]);
    assert_eq!(&frame[at(3, 0)..at(3, 0) + 4], &[255; 4]);
    assert_eq!(&frame[at(0, 2)..at(0, 2) + 4], &[255; 4]);
    assert_eq!(&frame[at(0, 7)..at(0, 7) + 4], &[0, 0, 0, 255]);
    assert_eq!(&frame[at(8, 0)..at(8, 0) + 4], &[9; 4]);
}

#[test]
fn text_stops_at_the_frame_end() {
    let mut frame = vec![9u8; 320 * 4 * 4];
    assert!(!render_text(0, 0, &vec!['A'], &mut frame));
    assert_eq!(&frame[at(2, 0)..at(2, 0) + 4], &[255; 4]);
}

#[test]
fn text_stops_at_a_character_without_glyph() {
    let mut frame = vec![9u8; 320 * 240 * 4];
    assert!(!render_text(0, 0, &vec!['A', '\u{e9}', 'A'], &mut frame));
    assert_eq!(&frame[at(2, 0)..at(2, 0) + 4], &[255; 4]);
    assert_eq!(&frame[at(8, 0)..at(8, 0) + 4], &[9; 4]);
    assert_eq!(&frame[at(18, 0)..at(18, 0) + 4], &[9; 4]);
}
