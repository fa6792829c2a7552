use photon_atom::orbit::{OrbitTable, CENTER_X, CENTER_Y, ORBIT_STEPS, RING};

fn table() -> OrbitTable {
    let mut cos = Vec::new();
    let mut sin = Vec::new();
    for n in 0..ORBIT_STEPS {
        let a = n as f64 / 255.0 * 2.0 * std::f64::consts::PI;
        cos.push((a.cos() * RING as f64) as i64);
        sin.push((a.sin() * RING as f64) as i64);
    }
    OrbitTable::from_offsets(cos, sin).unwrap()
}

#[test]
fn table_rejects_wrong_length() {
    assert!(OrbitTable::from_offsets(vec![0; 254], vec![0; 254]).is_none());
    assert!(OrbitTable::from_offsets(vec![0; 255], vec![0; 256]).is_none());
    assert!(OrbitTable::from_offsets(vec![0; 255], vec![0; 255]).is_some());
}

#[test]
fn table_rejects_offset_off_the_ring() {
    let mut cos = vec![0; 255];
    cos[7] = RING + 1;
    assert!(OrbitTable::from_offsets(cos, vec![0; 255]).is_none());
    let mut cos = vec![0; 255];
    let mut sin = vec![0; 255];
    cos[3] = 3700;
    sin[3] = 3700;
    assert!(OrbitTable::from_offsets(cos, sin).is_none());
    let mut cos = vec![0; 255];
    let mut sin = vec![0; 255];
    cos[3] = 3072;
    sin[3] = 4096;
    assert!(OrbitTable::from_offsets(cos, sin).is_some());
}

#[test]
fn orbit_point_exact() {
    let t = table();
    assert_eq!(t.orbit_position(0, 2), (CENTER_X + 2 * RING, CENTER_Y));
    assert_eq!(t.orbit_position(0, 0), (CENTER_X, CENTER_Y));
    assert_eq!((CENTER_X, CENTER_Y), (40960, 30720));
}

#[test]
fn orbit_stays_within_shell_radius() {
    let t = table();
    for frame in 0..=255u8 {
        for shell in 0..=6u8 {
            let (x, y) = t.orbit_position(frame, shell);
            let (ox, oy) = (x - CENTER_X, y - CENTER_Y);
            let r = shell as i64 * RING;
            assert!(ox * ox + oy * oy <= r * r);
            assert!(ox * ox + oy * oy >= (r - shell as i64 * 2) * (r - shell as i64 * 2));
        }
    }
}

#[test]
fn orbit_repeats_every_255_frames() {
    let t = table();
    for shell in 0..=6u8 {
        assert_eq!(t.orbit_position(255, shell), t.orbit_position(0, shell));
    }
    assert_ne!(t.orbit_position(1, 3), t.orbit_position(0, 3));
}
