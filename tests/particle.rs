use photon_atom::particle::{Particle, LIMIT};

#[test]
fn new_particle_fields() {
    let p = Particle::new(16, 16);
    assert_eq!((p.x(), p.y(), p.r, p.dx, p.dy), (4096, 4096, 1024, 2560, 0));
    assert_eq!(p.rgba, [0, 1, 1, 255]);
}

#[test]
fn update_pulls_and_damps() {
    let mut p = Particle::new(16, 16);
    assert!(!p.update(51200, 30720));
    assert_eq!((p.dx, p.dy, p.x, p.y), (3770, 1117, 7866, 5213));
}

#[test]
fn update_bounces_off_the_right_edge() {
    let mut p = Particle { x: 320 * 256, y: 100 * 256, r: 1024, dx: 1000, dy: 0, rgba: [0; 4] };
    p.update(320 * 256, 100 * 256);
    assert_eq!(p.dx, -700);
    assert_eq!(p.x, 320 * 256 - 700);
    assert_eq!(p.dy, 0);
}

#[test]
fn update_rounds_toward_zero() {
    let mut p = Particle { x: 100 * 256, y: 100 * 256, r: 1024, dx: -1, dy: 1, rgba: [0; 4] };
    p.update(100 * 256 - 20, 100 * 256 + 20);
    assert_eq!((p.dx, p.dy), (-1, 1));
}

#[test]
fn position_saturates_at_limit() {
    let mut p = Particle { x: LIMIT, y: 0, r: 1024, dx: -LIMIT, dy: 0, rgba: [0; 4] };
    p.update(LIMIT, 0);
    assert_eq!(p.dx, LIMIT * 7 / 10);
    assert_eq!(p.x, LIMIT);
}

#[test]
fn draw_glow_exact() {
    let p = Particle::new(2, 2);
    let mut buf = vec![9u8; 320 * 8 * 4];
    p.draw(&mut buf);
    let at = |x: usize, y: usize| (y * 320 + x) * 4;
    assert_eq!(&buf[at(2, 2)..at(2, 2) + 4], &[0, 255, 255, 1]);
    assert_eq!(&buf[at(1, 2)..at(1, 2) + 4], &[0, 225, 225, 31]);
    assert_eq!(&buf[at(6, 2)..at(6, 2) + 4], &[9, 9, 9, 9]);
    assert_eq!(&buf[at(2, 7)..at(2, 7) + 4], &[9, 9, 9, 9]);
}

#[test]
fn draw_twice_is_draw_once() {
    let mut p = Particle::new(50, 3);
    p.rgba = [3, 200, 17, 255];
    let mut once: Vec<u8> = (0..320 * 10 * 4).map(|i| (i % 251) as u8).collect();
    p.draw(&mut once);
    let mut twice = once.clone();
    p.draw(&mut twice);
    assert_eq!(once, twice);
}

#[test]
fn draw_keeps_a_partial_pixel() {
    let p = Particle::new(0, 0);
    let mut buf = vec![7u8; 6];
    p.draw(&mut buf);
    assert_eq!(&buf[4..], &[7, 7]);
    assert_eq!(&buf[..4], &[0, 255, 255, 1]);
}
