use homing_missiles::missile::{Missile, Placement, Scatter, MARKER_SCALE};
use homing_missiles::vec3::Vec3;

fn scatter(x: i64, y: i64, z: i64, sin_phase: i64) -> Scatter {
    Scatter { dest_tag: Vec3::new(x, y, z), sin_phase }
}

#[test]
fn launch_sets_every_field() {
    let missile = Missile::launch(
        Vec3::new(0, 1_000_000, 0),
        Vec3::new(0, 1_000_000, -15_000_000),
        scatter(2_000_000, 3_000_000, -1_000_000, 4_500_000),
    );
    assert_eq!(
        missile,
        Missile {
            progress: 0,
            start: Vec3::new(0, 1_000_000, 0),
            start_tag: Vec3::new(0, 9_000_000, 0),
            target: Vec3::new(0, 1_000_000, -15_000_000),
            target_tag: Vec3::new(2_000_000, 4_000_000, -16_000_000),
            sin_phase: 4_500_000,
        }
    );
    assert_eq!(MARKER_SCALE, 200_000);
}

#[test]
fn launch_accepts_the_ends_of_every_range() {
    let low = scatter(-8_000_000, 0, -5_000_000, -5_000_000);
    let high = scatter(8_000_000, 10_000_000, 5_000_000, 5_000_000);
    assert!(low.is_in_range());
    assert!(high.is_in_range());
    let edge = Vec3::new(1_000_000_000_000, 1_000_000_000_000, -1_000_000_000_000);
    let missile = Missile::launch(edge, edge, high);
    assert_eq!(missile.start_tag, Vec3::new(1_000_000_000_000, 1_000_008_000_000, -1_000_000_000_000));
    assert_eq!(
        missile.target_tag,
        Vec3::new(1_000_008_000_000, 1_000_010_000_000, -999_995_000_000)
    );
    let other = Missile::launch(edge, edge, low);
    assert_eq!(other.target_tag, Vec3::new(999_992_000_000, 1_000_000_000_000, -1_000_005_000_000));
    assert_eq!(other.sin_phase, -5_000_000);
}

#[test]
fn a_scatter_out_of_range_is_told() {
    assert!(!scatter(8_000_001, 0, 0, 0).is_in_range());
    assert!(!scatter(-8_000_001, 0, 0, 0).is_in_range());
    assert!(!scatter(0, -1, 0, 0).is_in_range());
    assert!(!scatter(0, 10_000_001, 0, 0).is_in_range());
    assert!(!scatter(0, 0, 5_000_001, 0).is_in_range());
    assert!(!scatter(0, 0, -5_000_001, 0).is_in_range());
    assert!(!scatter(0, 0, 0, 5_000_001).is_in_range());
    assert!(!scatter(0, 0, 0, -5_000_001).is_in_range());
    assert!(scatter(0, 0, 0, 0).is_in_range());
}

#[test]
fn a_fresh_missile_is_shown_at_its_start() {
    let missile = Missile::launch(
        Vec3::new(0, 1_000_000, 0),
        Vec3::new(0, 1_000_000, -15_000_000),
        scatter(2_000_000, 3_000_000, -1_000_000, 4_500_000),
    );
    let placement = missile.placement();
    assert_eq!(placement.curve, Vec3::new(0, 1_000_000, 0));
    assert_eq!(placement.envelope, 0);
    assert!(!placement.retired);
    assert_eq!(placement.position(1_000_000, -1_000_000), Vec3::new(0, 1_000_000, 0));
}

#[test]
fn a_missile_whose_progress_is_one_is_shown_at_its_target() {
    let mut missile = Missile::launch(
        Vec3::new(0, 1_000_000, 0),
        Vec3::new(0, 1_000_000, -15_000_000),
        scatter(-8_000_000, 10_000_000, 5_000_000, -5_000_000),
    );
    missile.advance(1_000_000);
    let placement = missile.placement();
    assert_eq!(placement.curve, Vec3::new(0, 1_000_000, -15_000_000));
    assert_eq!(placement.envelope, 0);
    assert!(placement.retired);
    assert_eq!(placement.position(-1_000_000, 1_000_000), Vec3::new(0, 1_000_000, -15_000_000));
}

#[test]
fn placement_halfway_has_the_values_of_the_formulas() {
    let mut missile = Missile::launch(
        Vec3::new(0, 1_000_000, 0),
        Vec3::new(0, 1_000_000, -15_000_000),
        scatter(2_000_000, 3_000_000, -1_000_000, 4_500_000),
    );
    missile.advance(500_000);
    let placement = missile.placement();
    // x: 3/8 * 2; y: (1 + 3 * 9 + 3 * 4 + 1) / 8; z: (3 * -16 - 15) / 8
    assert_eq!(placement.curve, Vec3::new(750_000, 5_125_000, -7_875_000));
    assert_eq!(placement.envelope, 1_000_000);
    // 8 * 0.5 + 4.5, and 16 more along y
    assert_eq!(placement.angle_x, 8_500_000);
    assert_eq!(placement.angle_y, 24_500_000);
    assert!(!placement.retired);
}

#[test]
fn placement_a_tenth_along() {
    let mut missile = Missile::launch(
        Vec3::new(0, 1_000_000, 0),
        Vec3::new(0, 1_000_000, -15_000_000),
        scatter(2_000_000, 3_000_000, -1_000_000, -5_000_000),
    );
    missile.advance(100_000);
    let placement = missile.placement();
    assert_eq!(placement.curve, Vec3::new(54_000, 3_025_000, -447_000));
    assert_eq!(placement.envelope, 360_000);
    assert_eq!(placement.angle_x, -4_200_000);
    assert_eq!(placement.angle_y, 11_800_000);
}

#[test]
fn position_adds_the_wobble_along_x_and_y_only() {
    let placement = Placement {
        curve: Vec3::new(54_000, 3_025_000, -447_000),
        envelope: 360_000,
        angle_x: 0,
        angle_y: 0,
        retired: false,
    };
    // 0.36 * 0.5 = 0.18 along x, 0.36 * -1 along y
    assert_eq!(placement.position(500_000, -1_000_000), Vec3::new(234_000, 2_665_000, -447_000));
    assert_eq!(placement.position(0, 0), Vec3::new(54_000, 3_025_000, -447_000));
}

#[test]
fn a_missile_past_its_target_is_still_placed() {
    let mut missile = Missile::launch(
        Vec3::new(0, 1_000_000, 0),
        Vec3::new(0, 1_000_000, -15_000_000),
        scatter(2_000_000, 3_000_000, -1_000_000, 0),
    );
    missile.advance(1_200_000);
    let placement = missile.placement();
    assert_eq!(placement.curve, Vec3::new(-1_728_000, -440_000, -12_096_000));
    assert_eq!(placement.envelope, -960_000);
    assert_eq!(placement.angle_x, 9_600_000);
    assert!(placement.retired);
    assert_eq!(
        placement.position(1_000_000, -500_000),
        Vec3::new(-2_688_000, 40_000, -12_096_000)
    );
}

#[test]
fn advance_adds_to_the_progress_and_changes_nothing_else() {
    let launched = Missile::launch(
        Vec3::new(1, 2, 3),
        Vec3::new(-4, -5, -6),
        scatter(7, 8, 9, 10),
    );
    let mut missile = launched;
    missile.advance(16_667);
    missile.advance(0);
    missile.advance(16_666);
    assert_eq!(missile, Missile { progress: 33_333, ..launched });
}

#[test]
fn a_flight_is_complete_from_one_on() {
    let mut missile = Missile::launch(Vec3::new(0, 0, 0), Vec3::new(1, 1, 1), scatter(0, 0, 0, 0));
    assert!(!missile.is_complete());
    missile.advance(999_999);
    assert!(!missile.is_complete());
    missile.advance(1);
    assert!(missile.is_complete());
    missile.advance(4_000_000_000);
    assert!(missile.is_complete());
}

#[test]
fn a_missile_is_well_formed_within_the_limits() {
    let launched = Missile::launch(
        Vec3::new(1_000_000_000_000, -1_000_000_000_000, 0),
        Vec3::new(-1_000_000_000_000, 1_000_000_000_000, 0),
        scatter(8_000_000, 10_000_000, -5_000_000, 5_000_000),
    );
    assert!(launched.is_wf());
    assert!(Missile { progress: 101_000_000, ..launched }.is_wf());
    assert!(!Missile { progress: 101_000_001, ..launched }.is_wf());
    assert!(!Missile { sin_phase: 5_000_001, ..launched }.is_wf());
    assert!(!Missile { sin_phase: -5_000_001, ..launched }.is_wf());
    assert!(!Missile { start: Vec3::new(0, 0, 1_000_010_000_001), ..launched }.is_wf());
    assert!(!Missile { start_tag: Vec3::new(0, -1_000_010_000_001, 0), ..launched }.is_wf());
    assert!(!Missile { target: Vec3::new(1_000_010_000_001, 0, 0), ..launched }.is_wf());
    assert!(!Missile { target_tag: Vec3::new(i64::MIN, 0, 0), ..launched }.is_wf());
    assert!(Vec3::new(1_000_010_000_000, -1_000_010_000_000, 0).is_in_reach());
    assert!(!Vec3::new(1_000_010_000_000, -1_000_010_000_001, 0).is_in_reach());
}
