use photon_atom::electron::Electron;
use photon_atom::orbit::{OrbitTable, ORBIT_STEPS, RING};
use photon_atom::particle::Particle;
use photon_atom::photon::{Photon, Target, PHOTON_COLOR};
use photon_atom::prng::Prng;
use photon_atom::sim::{energy_of, Simulation, ELECTRON_COLOR, SELECTED_COLOR};
use photon_atom::{HEIGHT, SUBPIXELS, WIDTH};

fn table() -> OrbitTable {
    let mut cos = Vec::new();
    let mut sin = Vec::new();
    for n in 0..ORBIT_STEPS {
        let a = n as f64 / 255.0 * 2.0 * std::f64::consts::PI;
        cos.push((a.cos() * RING as f64) as i64);
        sin.push((a.sin() * RING as f64) as i64);
    }
    OrbitTable::from_offsets(cos, sin).unwrap()
}

#[test]
fn energy_table_lookup() {
    assert_eq!(energy_of(0), None);
    assert_eq!(energy_of(1), Some(-1360));
    assert_eq!(energy_of(2), Some(-340));
    assert_eq!(energy_of(6), Some(-38));
    assert_eq!(energy_of(7), None);
    assert_eq!(energy_of(255), None);
}

#[test]
fn electron_moves_toward_its_orbit() {
    let t = table();
    let mut e = Electron::new(2);
    assert!(!e.update(0, &t));
    assert_eq!((e.p.dx, e.p.dy, e.x(), e.y()), (3770, 1117, 7866, 5213));
    assert_eq!(e.shell, 2);
}

#[test]
fn electron_shell_saturates() {
    let mut e = Electron::new(0);
    e.lower();
    assert_eq!(e.shell, 0);
    e.raise();
    assert_eq!(e.shell, 1);
    let mut top = Electron::new(255);
    top.raise();
    assert_eq!(top.shell, 255);
}

#[test]
fn arriving_photon_spawns_on_the_edge() {
    let e = Electron::new(2);
    let mut g = Prng::new();
    let ph = Photon::new(&e, 0, false, &mut g);
    assert_eq!((ph.x(), ph.y()), (22 * SUBPIXELS, 10 * SUBPIXELS));
    assert_eq!((ph.p.dx, ph.p.dy, ph.p.r), (0, 0, 4 * SUBPIXELS));
    assert_eq!(ph.p.rgba, PHOTON_COLOR);
    assert!(matches!(ph.target, Target::Bound(0)));
    let mut h = Prng::new();
    h.draw_n(6);
    assert_eq!(g.state, h.state);
}

#[test]
fn leaving_photon_starts_at_the_electron() {
    let mut e = Electron::new(2);
    e.p.dx = 77;
    let mut g = Prng::new();
    let ph = Photon::new(&e, 0, true, &mut g);
    assert_eq!((ph.x(), ph.y(), ph.p.dx), (e.x(), e.y(), 77));
    assert_eq!(ph.p.rgba, PHOTON_COLOR);
    match ph.target {
        Target::Anchor(a) => {
            assert_eq!(a.shell, 0);
            assert_eq!((a.x(), a.y()), (22 * SUBPIXELS, 10 * SUBPIXELS));
        }
        Target::Bound(_) => panic!("a leaving photon flies to an anchor"),
    }
}

#[test]
fn spawn_point_lies_on_screen() {
    let e = Electron::new(1);
    let mut g = Prng::with_seed(99);
    for _ in 0..200 {
        let ph = Photon::new(&e, 0, false, &mut g);
        assert!(ph.x() >= 0 && ph.x() < WIDTH as i64 * SUBPIXELS);
        assert!(ph.y() >= 0 && ph.y() < HEIGHT as i64 * SUBPIXELS);
    }
}

#[test]
fn photon_hits_a_resting_target_once() {
    let mut target = Electron::new(3);
    target.p = Particle { x: 200 * 256, y: 150 * 256, r: 1024, dx: 0, dy: 0, rgba: [0; 4] };
    let mut electrons = vec![Electron::new(5), target];
    let mut ph = Photon::new(&electrons[1], 1, false, &mut Prng::new());
    let mut hits = 0;
    let mut steps = 0;
    while steps < 10_000 {
        steps += 1;
        if ph.update(&mut electrons) {
            hits += 1;
            break;
        }
        assert_eq!(electrons[1].shell, 3);
    }
    assert_eq!(hits, 1);
    assert!(steps > 1);
    assert_eq!(electrons[1].shell, 2);
    assert_eq!(electrons[0].shell, 5);
}

#[test]
fn emit_then_tick_until_gone() {
    let mut sim = Simulation::new(table());
    assert_eq!(sim.electrons.len(), 1);
    assert_eq!(sim.electrons[0].shell, 2);
    sim.emit_photon();
    assert_eq!(sim.electrons[0].shell, 3);
    assert_eq!(sim.photons.len(), 1);
    let mut ticks = 0;
    while !sim.photons.is_empty() && ticks < 10_000 {
        sim.tick();
        ticks += 1;
    }
    assert!(sim.photons.is_empty());
    assert_eq!(sim.electrons.len(), 1);
    assert_eq!(sim.electrons[0].shell, 3);
}

#[test]
fn absorb_changes_shell_only_on_arrival() {
    let mut sim = Simulation::new(table());
    sim.absorb_photon();
    assert_eq!(sim.electrons[0].shell, 2);
    assert_eq!(sim.photons.len(), 1);
    sim.tick();
    if !sim.photons.is_empty() {
        assert_eq!(sim.electrons[0].shell, 2);
    }
}

#[test]
fn tick_wraps_the_frame_counter() {
    let mut sim = Simulation::new(table());
    for _ in 0..256 {
        sim.tick();
    }
    assert_eq!(sim.frame, 0);
    sim.tick();
    assert_eq!(sim.frame, 1);
}

#[test]
fn electron_stays_near_the_screen() {
    let mut sim = Simulation::new(table());
    for shell in 3..=5 {
        sim.electrons.push(Electron::new(shell));
    }
    let eps = 20 * SUBPIXELS;
    for _ in 0..3000 {
        sim.tick();
        for e in &sim.electrons {
            assert!(e.x() >= -eps && e.x() <= WIDTH as i64 * SUBPIXELS + eps);
            assert!(e.y() >= -eps && e.y() <= HEIGHT as i64 * SUBPIXELS + eps);
        }
    }
}

#[test]
fn selection_cycles_and_recolors() {
    let mut sim = Simulation::new(table());
    sim.select_next_electron();
    assert_eq!(sim.selected, 0);
    assert_eq!(sim.electrons[0].p.rgba, SELECTED_COLOR);
    sim.electrons.push(Electron::new(4));
    sim.select_next_electron();
    assert_eq!(sim.selected, 1);
    assert_eq!(sim.electrons[0].p.rgba, ELECTRON_COLOR);
    assert_eq!(sim.electrons[1].p.rgba, SELECTED_COLOR);
    assert_eq!(sim.selected_energy(), Some(-85));
    sim.select_next_electron();
    assert_eq!(sim.selected, 0);
    assert_eq!(sim.selected_energy(), Some(-340));
}

#[test]
fn render_draws_the_nucleus_over_the_fade() {
    let sim = Simulation::new(table());
    let mut frame = vec![0u8; 320 * 240 * 4];
    sim.render(&mut frame);
    let at = |x: usize, y: usize| (y * 320 + x) * 4;
    assert_eq!(&frame[at(160, 120)..at(160, 120) + 4], &[35, 86, 239, 1]);
    assert_eq!(&frame[at(300, 10)..at(300, 10) + 4], &[0, 0, 0, 0]);
    assert_eq!(&frame[at(180, 120)..at(180, 120) + 4], &[70, 70, 70, 70]);
}

#[test]
fn absorbed_photon_lowers_the_shell_on_arrival() {
    let mut sim = Simulation::new(table());
    sim.absorb_photon();
    let mut ticks = 0;
    while !sim.photons.is_empty() && ticks < 20_000 {
        assert_eq!(sim.electrons[0].shell, 2);
        sim.tick();
        ticks += 1;
    }
    assert!(sim.photons.is_empty());
    assert_eq!(sim.electrons[0].shell, 1);
}
