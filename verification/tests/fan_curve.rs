use lapsphere::devices::IoCommand;
use lapsphere::fan_curve::{apply_fan_curves, calculate_fan_speed, sort_points};
use lapsphere::types::FanCurve;

#[test]
fn points_are_sorted_by_temperature() {
    assert_eq!(sort_points(&[(80, 100), (40, 30), (60, 50)]), vec![(40, 30), (60, 50), (80, 100)]);
    assert_eq!(sort_points(&[]), Vec::<(u8, u8)>::new());
}

#[test]
fn interpolation_between_points_rounds_half_up() {
    let curve = [(40, 30), (60, 50), (80, 100)];
    assert_eq!(calculate_fan_speed(&curve, 50), 40);
    assert_eq!(calculate_fan_speed(&curve, 70), 75);
    assert_eq!(calculate_fan_speed(&curve, 65), 63);
    assert_eq!(calculate_fan_speed(&[(40, 80), (60, 50)], 45), 73);
}

#[test]
fn outside_the_curve_the_end_points_hold() {
    let curve = [(40, 30), (60, 50), (80, 100)];
    assert_eq!(calculate_fan_speed(&curve, 20), 30);
    assert_eq!(calculate_fan_speed(&curve, -5), 30);
    assert_eq!(calculate_fan_speed(&curve, 95), 100);
    assert_eq!(calculate_fan_speed(&[], 70), 50);
    assert_eq!(calculate_fan_speed(&[(50, 42)], 90), 42);
}

#[test]
fn fan_tick_sets_each_known_fan_with_a_temperature() {
    let curves = vec![
        FanCurve { fan_id: 0, points: vec![(60, 50), (40, 30)] },
        FanCurve { fan_id: 1, points: vec![(40, 30)] },
        FanCurve { fan_id: 5, points: vec![(40, 30)] },
    ];
    let cmds = apply_fan_curves(&curves, 2, &[Some(50), None, Some(50)]);
    assert_eq!(cmds, vec![IoCommand::SetFanSpeed { fan_id: 0, percent: 40 }]);
}
