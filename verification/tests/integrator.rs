use threed_test::consts::GRAVITATIONAL_CONSTANT;
use threed_test::fixed::{Fx, FX_ONE};
use threed_test::physics::{GBody, PhysicsMesh, Srgba};
use threed_test::vector::V3;

fn fxf(v: f64) -> Fx {
    Fx::from_raw((v * FX_ONE as f64) as i64)
}

fn v3f(x: f64, y: f64, z: f64) -> V3 {
    V3::new(fxf(x), fxf(y), fxf(z))
}

fn body(name: &str, mass: i64, pos: V3, vel: V3) -> GBody {
    let mut b = GBody::new(
        String::from(name),
        Srgba::new(255, 255, 255, 255),
        Fx::from_int(1),
        Fx::from_int(mass),
    )
    .unwrap();
    b.set_motion(pos, vel);
    b
}

/// The worked example: a heavy "sun" at the origin, an "earth" in a
/// near orbit, and a light "moon" beside it.
fn example_mesh() -> PhysicsMesh {
    let mut mesh = PhysicsMesh::default();
    mesh.add(body("sun", 2_600_000, v3f(0.0, 0.0, 0.0), v3f(0.0, 0.0, 0.0)));
    mesh.add(body("earth", 450_000, v3f(7.0, 0.0, 0.0), v3f(0.0, 0.004, 0.0)));
    mesh.add(body("moon", 300, v3f(8.5, 0.0, 0.0), v3f(0.0, -0.0007, 0.0)));
    mesh
}

fn momentum(mesh: &PhysicsMesh) -> [i128; 3] {
    let mut m: [i128; 3] = [0, 0, 0];
    for b in &mesh.components {
        m[0] += b.mass.raw as i128 * b.vel.x.raw as i128;
        m[1] += b.mass.raw as i128 * b.vel.y.raw as i128;
        m[2] += b.mass.raw as i128 * b.vel.z.raw as i128;
    }
    m
}

#[test]
fn default_mesh_uses_the_default_constant() {
    let mesh = PhysicsMesh::default();
    assert_eq!(mesh.const_g.raw, GRAVITATIONAL_CONSTANT);
    assert!(mesh.components.is_empty());
}

#[test]
fn add_keeps_insertion_order() {
    let mesh = example_mesh();
    let names: Vec<&str> = mesh.components.iter().map(|b| b.name.as_str()).collect();
    assert_eq!(names, ["sun", "earth", "moon"]);
}

#[test]
fn compute_on_empty_mesh_does_nothing() {
    let mut mesh = PhysicsMesh::default();
    mesh.compute(Fx::from_int(1));
    assert!(mesh.components.is_empty());
}

#[test]
fn compute_on_one_body_keeps_velocity() {
    let mut mesh = PhysicsMesh::default();
    let vel = V3::new(Fx::from_raw(FX_ONE / 2), Fx::from_raw(-FX_ONE / 4), Fx::from_raw(0));
    mesh.add(body("lone", 10, v3f(1.0, 2.0, 3.0), vel));
    mesh.compute(Fx::from_int(2));
    let b = &mesh.components[0];
    assert_eq!(b.vel, vel);
    assert_eq!(b.pos.x.raw, 2 * FX_ONE);
    assert_eq!(b.pos.y.raw, 2 * FX_ONE - FX_ONE / 2);
    assert_eq!(b.pos.z.raw, 3 * FX_ONE);
}

#[test]
fn compute_on_one_resting_body_changes_nothing() {
    let mut mesh = PhysicsMesh::default();
    mesh.add(body("lone", 10, v3f(1.0, 2.0, 3.0), v3f(0.0, 0.0, 0.0)));
    mesh.compute(Fx::from_int(5));
    let b = &mesh.components[0];
    assert_eq!(b.pos, v3f(1.0, 2.0, 3.0));
    assert_eq!(b.vel, v3f(0.0, 0.0, 0.0));
}

#[test]
fn coincident_bodies_exchange_no_kick() {
    // Two bodies at exactly the same position: the defined policy is
    // zero applied acceleration, not an error and not a poisoned state.
    let mut mesh = PhysicsMesh::default();
    mesh.add(body("d", 100, v3f(5.0, 5.0, 5.0), v3f(0.001, 0.0, 0.0)));
    mesh.add(body("e", 200, v3f(5.0, 5.0, 5.0), v3f(0.0, 0.0, 0.0)));
    mesh.compute(Fx::from_int(1));
    let d = &mesh.components[0];
    let e = &mesh.components[1];
    assert_eq!(d.vel, v3f(0.001, 0.0, 0.0));
    assert_eq!(e.vel, v3f(0.0, 0.0, 0.0));
    // The moving body still advances along its own velocity.
    assert_eq!(d.pos.x.raw, 5 * FX_ONE + 1_099_511_627);
    assert_eq!(e.pos, v3f(5.0, 5.0, 5.0));
}

#[test]
fn two_body_kick_matches_newtons_law() {
    // With only the sun and the earth, the earth's velocity change
    // after one step of dt = 1 is exactly G * mass(sun) / 7^2 * dt,
    // directed toward the sun, in fixed-point arithmetic.
    let mut mesh = PhysicsMesh::default();
    mesh.add(body("sun", 2_600_000, v3f(0.0, 0.0, 0.0), v3f(0.0, 0.0, 0.0)));
    mesh.add(body("earth", 450_000, v3f(7.0, 0.0, 0.0), v3f(0.0, 0.004, 0.0)));
    mesh.compute(Fx::from_int(1));
    let sun = &mesh.components[0];
    let earth = &mesh.components[1];
    // G * m_sun / 49 * 1, in raw form: (73 * 2_600_000) / 49.
    let expected_earth_kick = (GRAVITATIONAL_CONSTANT * 2_600_000) / 49;
    assert_eq!(expected_earth_kick, 3_873_469);
    assert_eq!(earth.vel.x.raw, -expected_earth_kick);
    // The pull is along the axis toward the sun: the tangential
    // component is untouched.
    assert_eq!(earth.vel.y.raw, (0.004 * FX_ONE as f64) as i64);
    assert_eq!(earth.vel.z.raw, 0);
    // The sun is kicked the other way with the earth's mass.
    let expected_sun_kick = (GRAVITATIONAL_CONSTANT * 450_000) / 49;
    assert_eq!(sun.vel.x.raw, expected_sun_kick);
}

#[test]
fn example_scenario_after_one_step() {
    let mut mesh = example_mesh();
    mesh.compute(Fx::from_int(1));
    let sun = &mesh.components[0];
    let earth = &mesh.components[1];
    let moon = &mesh.components[2];
    // Sun: pulled toward earth and moon (both at +x).
    assert_eq!(sun.vel.x.raw, 670_711);
    assert_eq!(sun.pos.x.raw, 670_711);
    // Earth: the sun's pull (-x) minus the moon's small pull (+x).
    assert_eq!(earth.vel.x.raw, -3_863_736);
    assert_eq!(earth.vel.y.raw, 4_398_046_511);
    assert_eq!(earth.pos.x.raw, 7_696_577_530_696);
    assert_eq!(earth.pos.y.raw, 4_398_046_511);
    // Moon: pulled toward both heavier bodies (-x).
    assert_eq!(moon.vel.x.raw, -17_226_989);
    assert_eq!(moon.vel.y.raw, -769_658_139);
    assert_eq!(moon.pos.x.raw, 9_345_831_609_107);
}

#[test]
fn velocity_kicks_use_start_of_step_positions() {
    // Body b flies away from a at speed 1 while they are 1 apart.  The
    // two-phase step kicks a with the distance-1 magnitude; advancing
    // positions first would leave b at distance 2 and give a kick four
    // times smaller.
    let mut mesh = PhysicsMesh::default();
    mesh.add(body("a", 1_000_000, v3f(0.0, 0.0, 0.0), v3f(0.0, 0.0, 0.0)));
    mesh.add(body("b", 500_000, v3f(1.0, 0.0, 0.0), v3f(1.0, 0.0, 0.0)));
    mesh.compute(Fx::from_int(1));
    let a = &mesh.components[0];
    let b = &mesh.components[1];
    let kick_at_distance_one = GRAVITATIONAL_CONSTANT * 500_000;
    let kick_at_distance_two = GRAVITATIONAL_CONSTANT * 500_000 / 4;
    assert_eq!(kick_at_distance_one, 36_500_000);
    assert_ne!(kick_at_distance_one, kick_at_distance_two);
    assert_eq!(a.vel.x.raw, kick_at_distance_one);
    // And b's own position advances with its updated velocity.
    assert_eq!(b.vel.x.raw, FX_ONE - GRAVITATIONAL_CONSTANT * 1_000_000);
    assert_eq!(b.pos.x.raw, FX_ONE + b.vel.x.raw);
}

#[test]
fn kick_magnitudes_swap_the_masses() {
    // Newton's third law: each body's velocity change, weighted by its
    // own mass, matches the other's up to fixed-point rounding.
    let mut mesh = PhysicsMesh::default();
    mesh.add(body("heavy", 2_600_000, v3f(0.0, 0.0, 0.0), v3f(0.0, 0.0, 0.0)));
    mesh.add(body("light", 450_000, v3f(7.0, 0.0, 0.0), v3f(0.0, 0.0, 0.0)));
    mesh.compute(Fx::from_int(1));
    let dv_heavy = mesh.components[0].vel.x.raw as i128;
    let dv_light = -(mesh.components[1].vel.x.raw as i128);
    let heavy_side = dv_heavy * 2_600_000;
    let light_side = dv_light * 450_000;
    let diff = (heavy_side - light_side).abs() as f64;
    assert!(dv_heavy > 0 && dv_light > 0);
    assert!(diff / (heavy_side as f64) < 1e-5);
}

#[test]
fn momentum_is_approximately_conserved() {
    let mut mesh = example_mesh();
    let before = momentum(&mesh);
    let dt = fxf(0.125);
    for _ in 0..400 {
        mesh.compute(dt);
    }
    let after = momentum(&mesh);
    let mut reference: f64 = 0.0;
    for b in &mesh.components {
        reference += (b.mass.raw as i128 * b.vel.y.raw as i128).abs() as f64;
    }
    for k in 0..3 {
        let drift = (after[k] - before[k]).abs() as f64;
        assert!(drift / reference < 1e-4);
    }
}

#[test]
fn near_circular_orbit_keeps_its_radius() {
    // A light satellite at radius 7 around a heavy resting center,
    // with the tangential speed sqrt(G * M / r) for the fixed-point
    // value of G: over 4000 small steps the radius drifts only within
    // a small bound.
    let g = GRAVITATIONAL_CONSTANT as f64 / FX_ONE as f64;
    let v = (g * 2_600_000.0 / 7.0).sqrt();
    let mut mesh = PhysicsMesh::default();
    mesh.add(body("center", 2_600_000, v3f(0.0, 0.0, 0.0), v3f(0.0, 0.0, 0.0)));
    mesh.add(body("sat", 1, v3f(7.0, 0.0, 0.0), v3f(0.0, v, 0.0)));
    let dt = fxf(0.25);
    for _ in 0..4000 {
        mesh.compute(dt);
        let c = &mesh.components[0];
        let s = &mesh.components[1];
        let dx = (s.pos.x.raw - c.pos.x.raw) as f64 / FX_ONE as f64;
        let dy = (s.pos.y.raw - c.pos.y.raw) as f64 / FX_ONE as f64;
        let dz = (s.pos.z.raw - c.pos.z.raw) as f64 / FX_ONE as f64;
        let dist = (dx * dx + dy * dy + dz * dz).sqrt();
        assert!((dist - 7.0).abs() / 7.0 < 1e-3);
    }
}
