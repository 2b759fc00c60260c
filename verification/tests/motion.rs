use bow_core::motion::clamp_charge;
use bow_core::motion::spawn_position_micro;
use bow_core::motion::speed_milli;
use bow_core::motion::velocity_micro;
use bow_core::motion::Vec3;

#[test]
fn charge_clamp_leaves_valid_charges_alone() {
    assert_eq!(clamp_charge(0), 0);
    assert_eq!(clamp_charge(500), 500);
    assert_eq!(clamp_charge(1000), 1000);
}

#[test]
fn charge_clamp_cuts_overfull_charges() {
    assert_eq!(clamp_charge(1001), 1000);
    assert_eq!(clamp_charge(u32::MAX), 1000);
}

#[test]
fn speed_is_three_times_the_charge() {
    assert_eq!(speed_milli(0), 0);
    assert_eq!(speed_milli(500), 1500);
    assert_eq!(speed_milli(1000), 3000);
    assert_eq!(speed_milli(4000), 3000);
}

#[test]
fn velocity_scales_direction_by_speed() {
    let ahead = Vec3::new(0, 0, 1000);
    let v = velocity_micro(ahead, 500);
    assert_eq!(v, Vec3::new(0, 0, 1500000));
}

#[test]
fn velocity_magnitude_matches_charge_times_max_speed() {
    // a unit direction with two components: 0.6 and 0.8 of a unit
    let d = Vec3::new(600, 0, 800);
    let v = velocity_micro(d, 1000);
    assert_eq!(v, Vec3::new(1800000, 0, 2400000));
    let mag = ((v.x as f64).powi(2) + (v.y as f64).powi(2) + (v.z as f64).powi(2)).sqrt();
    // 3.0 world units per tick, in micro-units
    assert_eq!(mag, 3000000.0);
}

#[test]
fn zero_charge_gives_zero_velocity() {
    let d = Vec3::new(600, 0, 800);
    assert_eq!(velocity_micro(d, 0), Vec3::new(0, 0, 0));
}

#[test]
fn spawn_position_is_eye_height_plus_forward_offset() {
    let p = Vec3::new(0, 0, 0);
    let d = Vec3::new(0, 0, 1000);
    let s = spawn_position_micro(p, d);
    assert_eq!(s, Vec3::new(0, 1620000, 500000));
}

#[test]
fn spawn_position_tracks_the_player() {
    let p = Vec3::new(10000, -2000, 3500);
    let d = Vec3::new(1000, 0, 0);
    let s = spawn_position_micro(p, d);
    assert_eq!(s, Vec3::new(10000000 + 500000, -2000000 + 1620000, 3500000));
}
