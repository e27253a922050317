use gimbal_control::gimbal::GimbalState;
use gimbal_control::kinematics::{
    average_height, perimeter, plate_vertex, solve, tilt_offset, ActuatorLayout, ActuatorState,
    Band, Bearing, LayoutError, PlateVertex, BASE_NOMINAL,
};

const ONE: i64 = 1_000_000_000_000;
const HALF: i64 = 500_000_000_000;
const SIN_60: i64 = 866_025_403_784;

const MM: i64 = 1_000_000;
const DEGREE: i64 = 1_000_000;

fn cross(radius: i64) -> ActuatorLayout {
    let bearings = vec![
        Bearing { cos: ONE, sin: 0 },
        Bearing { cos: 0, sin: ONE },
        Bearing { cos: -ONE, sin: 0 },
        Bearing { cos: 0, sin: -ONE },
    ];
    ActuatorLayout::new(bearings, radius).unwrap()
}

fn as_mm(value: i64) -> f64 {
    value as f64 / 1_000_000.0
}

fn state_with_extension(extension: i64) -> ActuatorState {
    ActuatorState { base_x: 0, base_z: 0, height: BASE_NOMINAL + extension, extension }
}

#[test]
fn level_demand_leaves_every_actuator_at_base_nominal() {
    let layout = ActuatorLayout::triangular(100 * MM).unwrap();
    let demand = GimbalState { pitch: 0, roll: 0, lift: 0 };
    let (states, vertices) = solve(&demand, &layout);
    assert_eq!(states.len(), 3);
    assert_eq!(vertices.len(), 3);
    for state in &states {
        assert!((as_mm(state.height) - 15.0).abs() < 1e-9);
        assert_eq!(state.height, 15 * MM);
        assert_eq!(state.extension, 0);
        assert_eq!(state.band(), Band::Neutral);
    }
}

#[test]
fn triangular_layout_stands_at_thirds_of_a_turn() {
    let layout = ActuatorLayout::triangular(100 * MM).unwrap();
    assert_eq!(layout.count(), 3);
    assert_eq!(layout.radius(), 100 * MM);
    assert_eq!(layout.bearing(0), Bearing { cos: ONE, sin: 0 });
    assert_eq!(layout.bearing(1), Bearing { cos: -HALF, sin: SIN_60 });
    assert_eq!(layout.bearing(2), Bearing { cos: -HALF, sin: -SIN_60 });
    let demand = GimbalState { pitch: 0, roll: 0, lift: 0 };
    let (states, _) = solve(&demand, &layout);
    let bases: Vec<(i64, i64)> = states.iter().map(|s| (s.base_x, s.base_z)).collect();
    assert_eq!(
        bases,
        vec![(100_000_000, 0), (-50_000_000, 86_602_540), (-50_000_000, -86_602_540)]
    );
}

#[test]
fn hexagonal_layout_stands_at_sixths_of_a_turn() {
    let layout = ActuatorLayout::hexagonal(60 * MM).unwrap();
    assert_eq!(layout.count(), 6);
    assert_eq!(layout.bearing(3), Bearing { cos: -ONE, sin: 0 });
    assert_eq!(layout.bearing(5), Bearing { cos: HALF, sin: -SIN_60 });
    let demand = GimbalState { pitch: 0, roll: 0, lift: 0 };
    let (states, vertices) = solve(&demand, &layout);
    assert_eq!(states.len(), 6);
    assert_eq!(vertices.len(), 6);
    assert_eq!((states[1].base_x, states[1].base_z), (30_000_000, 51_961_524));
    assert_eq!((states[4].base_x, states[4].base_z), (-30_000_000, -51_961_524));
}

#[test]
fn pitch_raises_the_forward_actuator_and_lowers_the_opposite_one() {
    let layout = cross(100 * MM);
    let demand = GimbalState { pitch: 10 * DEGREE, roll: 0, lift: 0 };
    let (states, _) = solve(&demand, &layout);
    assert!(states[1].height > states[3].height);
    assert_eq!(states[1].extension, 8_726_646);
    assert_eq!(states[3].extension, -8_726_646);
    assert_eq!(states[1].height, 23_726_646);
    assert_eq!(states[3].height, 6_273_354);
    assert_eq!(states[0].extension, 0);
    assert_eq!(states[2].extension, 0);
    let expected = 100.0 * 10.0_f64.to_radians() * 0.5;
    assert!((as_mm(states[1].extension) - expected).abs() < 1e-6);
}

#[test]
fn negative_pitch_reverses_the_differential() {
    let layout = cross(100 * MM);
    let demand = GimbalState { pitch: -10 * DEGREE, roll: 0, lift: 0 };
    let (states, _) = solve(&demand, &layout);
    assert!(states[1].height < states[3].height);
    assert_eq!(states[1].extension, -8_726_646);
    assert_eq!(states[3].extension, 8_726_646);
}

#[test]
fn a_tilt_below_one_count_moves_nothing() {
    let layout = cross(1);
    let demand = GimbalState { pitch: 10 * DEGREE, roll: 0, lift: 0 };
    let (states, _) = solve(&demand, &layout);
    assert_eq!(states[1].height, states[3].height);
    assert_eq!(states[1].extension, 0);
}

#[test]
fn roll_raises_the_actuator_on_the_x_axis() {
    let layout = cross(100 * MM);
    let demand = GimbalState { pitch: 0, roll: 10 * DEGREE, lift: 0 };
    let (states, _) = solve(&demand, &layout);
    assert_eq!(states[0].extension, 8_726_646);
    assert_eq!(states[2].extension, -8_726_646);
    assert_eq!(states[1].extension, 0);
    assert_eq!(states[3].extension, 0);
}

#[test]
fn pitch_roll_and_lift_combine() {
    let layout = ActuatorLayout::triangular(100 * MM).unwrap();
    let demand = GimbalState { pitch: 10 * DEGREE, roll: 5 * DEGREE, lift: 2 * MM };
    let (states, vertices) = solve(&demand, &layout);
    let extensions: Vec<i64> = states.iter().map(|s| s.extension).collect();
    let heights: Vec<i64> = states.iter().map(|s| s.height).collect();
    assert_eq!(extensions, vec![4_363_323, 5_375_836, -9_739_159]);
    assert_eq!(heights, vec![21_363_323, 22_375_836, 7_260_841]);
    assert_eq!(
        vertices,
        vec![
            PlateVertex { x: 100_000_000, height: 21_363_323, z: 0 },
            PlateVertex { x: -50_000_000, height: 22_375_836, z: 86_602_540 },
            PlateVertex { x: -50_000_000, height: 7_260_841, z: -86_602_540 },
        ]
    );
}

#[test]
fn full_authority_on_a_small_layout() {
    let layout = ActuatorLayout::triangular(75 * MM).unwrap();
    let demand = GimbalState { pitch: 20 * DEGREE, roll: -20 * DEGREE, lift: 0 };
    let (states, _) = solve(&demand, &layout);
    let extensions: Vec<i64> = states.iter().map(|s| s.extension).collect();
    assert_eq!(extensions, vec![-13_089_969, 17_881_231, -4_791_261]);
    let bands: Vec<Band> = states.iter().map(|s| s.band()).collect();
    assert_eq!(bands, vec![Band::Retracted, Band::Extended, Band::Retracted]);
}

#[test]
fn lift_moves_every_actuator_alike() {
    let layout = ActuatorLayout::triangular(100 * MM).unwrap();
    let low = GimbalState { pitch: 7 * DEGREE, roll: -3 * DEGREE, lift: -4 * MM };
    let high = GimbalState { pitch: 7 * DEGREE, roll: -3 * DEGREE, lift: 6 * MM };
    let (below, _) = solve(&low, &layout);
    let (above, _) = solve(&high, &layout);
    for i in 0..3 {
        assert_eq!(above[i].height - below[i].height, 10 * MM);
        assert_eq!(above[i].extension, below[i].extension);
    }
}

#[test]
fn solving_twice_gives_identical_results() {
    let layout = ActuatorLayout::hexagonal(80 * MM).unwrap();
    let demand = GimbalState { pitch: 13_370_000, roll: -4_200_000, lift: 1_234_567 };
    let first = solve(&demand, &layout);
    let second = solve(&demand, &layout);
    assert_eq!(first, second);
}

#[test]
fn vertices_are_the_tops_of_the_actuators() {
    let layout = ActuatorLayout::hexagonal(80 * MM).unwrap();
    let demand = GimbalState { pitch: 3 * DEGREE, roll: 9 * DEGREE, lift: -MM };
    let (states, vertices) = solve(&demand, &layout);
    let tops: Vec<PlateVertex> = states.iter().map(|s| s.top()).collect();
    assert_eq!(tops, vertices);
    assert_eq!(
        states[2].top(),
        PlateVertex { x: states[2].base_x, height: states[2].height, z: states[2].base_z }
    );
}

#[test]
fn solver_accepts_the_largest_demand_and_layout() {
    let layout = cross(10_000_000_000);
    let demand =
        GimbalState { pitch: 1_000_000_000, roll: 1_000_000_000, lift: 1_000_000_000_000 };
    let (states, _) = solve(&demand, &layout);
    assert_eq!(states[1].extension, 87_266_462_600);
    assert_eq!(states[1].height, 15_000_000 + 1_000_000_000_000 + 87_266_462_600);
    assert_eq!(states[3].extension, -87_266_462_600);
}

#[test]
fn extension_bands_open_beyond_three_millimetres() {
    assert_eq!(state_with_extension(0).band(), Band::Neutral);
    assert_eq!(state_with_extension(3 * MM).band(), Band::Neutral);
    assert_eq!(state_with_extension(-3 * MM).band(), Band::Neutral);
    assert_eq!(state_with_extension(3 * MM + 1).band(), Band::Extended);
    assert_eq!(state_with_extension(-3 * MM - 1).band(), Band::Retracted);
    assert_eq!(state_with_extension(i64::MAX - BASE_NOMINAL).band(), Band::Extended);
}

#[test]
fn a_layout_needs_three_actuators() {
    let two = vec![Bearing { cos: ONE, sin: 0 }, Bearing { cos: -ONE, sin: 0 }];
    assert_eq!(ActuatorLayout::new(two, 100 * MM).err(), Some(LayoutError::TooFewActuators));
    assert_eq!(
        ActuatorLayout::new(Vec::new(), 100 * MM).err(),
        Some(LayoutError::TooFewActuators)
    );
    let three = vec![Bearing { cos: 0, sin: ONE }; 3];
    assert!(ActuatorLayout::new(three, 100 * MM).is_ok());
}

#[test]
fn a_layout_needs_a_positive_radius_within_the_limit() {
    assert_eq!(ActuatorLayout::triangular(0).err(), Some(LayoutError::RadiusOutOfRange));
    assert_eq!(ActuatorLayout::triangular(-5).err(), Some(LayoutError::RadiusOutOfRange));
    assert_eq!(
        ActuatorLayout::hexagonal(10_000_000_001).err(),
        Some(LayoutError::RadiusOutOfRange)
    );
    assert!(ActuatorLayout::hexagonal(10_000_000_000).is_ok());
    assert!(ActuatorLayout::triangular(1).is_ok());
}

#[test]
fn a_layout_needs_bearings_on_the_unit_circle() {
    let mut bearings = vec![Bearing { cos: ONE, sin: 0 }; 4];
    bearings[3] = Bearing { cos: 0, sin: ONE + 1 };
    assert_eq!(
        ActuatorLayout::new(bearings.clone(), 100 * MM).err(),
        Some(LayoutError::BearingOutOfRange)
    );
    bearings[3] = Bearing { cos: -ONE, sin: ONE };
    assert_eq!(
        ActuatorLayout::new(bearings.clone(), 100 * MM).err(),
        Some(LayoutError::BearingOutOfRange)
    );
    bearings[3] = Bearing { cos: 0, sin: 0 };
    assert_eq!(
        ActuatorLayout::new(bearings.clone(), 100 * MM).err(),
        Some(LayoutError::BearingOutOfRange)
    );
    bearings[3] = Bearing { cos: -HALF, sin: -SIN_60 };
    assert!(ActuatorLayout::new(bearings, 100 * MM).is_ok());
}

#[test]
fn layout_faults_are_found_in_order() {
    let short_and_bad = vec![Bearing { cos: 2 * ONE, sin: 0 }];
    assert_eq!(
        ActuatorLayout::new(short_and_bad, 0).err(),
        Some(LayoutError::TooFewActuators)
    );
    let bad = vec![Bearing { cos: 2 * ONE, sin: 0 }; 3];
    assert_eq!(ActuatorLayout::new(bad, 0).err(), Some(LayoutError::RadiusOutOfRange));
}

#[test]
fn bearing_validity_is_nearness_to_the_unit_circle() {
    assert!(Bearing { cos: ONE, sin: 0 }.is_valid());
    assert!(Bearing { cos: 0, sin: -ONE }.is_valid());
    assert!(Bearing { cos: -HALF, sin: SIN_60 }.is_valid());
    assert!(Bearing { cos: 707_106_781_187, sin: -707_106_781_187 }.is_valid());
    assert!(Bearing { cos: ONE, sin: 1_000_000 }.is_valid());
    assert!(!Bearing { cos: ONE, sin: 2_000_000 }.is_valid());
    assert!(!Bearing { cos: ONE, sin: -ONE }.is_valid());
    assert!(!Bearing { cos: 0, sin: 0 }.is_valid());
    assert!(!Bearing { cos: ONE + 1, sin: 0 }.is_valid());
    assert!(!Bearing { cos: 0, sin: -ONE - 1 }.is_valid());
    assert!(!Bearing { cos: -HALF, sin: 866_025_000_000 }.is_valid());
    assert!(!Bearing { cos: i64::MIN, sin: i64::MAX }.is_valid());
}

#[test]
fn tilt_offset_is_half_the_arc() {
    let demand = GimbalState { pitch: 10 * DEGREE, roll: 0, lift: 0 };
    assert_eq!(tilt_offset(&demand, 100 * MM, Bearing { cos: 0, sin: ONE }), 8_726_646);
    assert_eq!(tilt_offset(&demand, 100 * MM, Bearing { cos: 0, sin: -ONE }), -8_726_646);
    assert_eq!(tilt_offset(&demand, 100 * MM, Bearing { cos: ONE, sin: 0 }), 0);
    let both = GimbalState { pitch: 10 * DEGREE, roll: 5 * DEGREE, lift: 0 };
    assert_eq!(tilt_offset(&both, 100 * MM, Bearing { cos: -HALF, sin: SIN_60 }), 5_375_836);
}

#[test]
fn average_height_is_the_mean_rounded_toward_zero() {
    let states = vec![
        state_with_extension(4_363_323),
        state_with_extension(5_375_832),
        state_with_extension(-9_739_156),
    ];
    assert_eq!(average_height(&states), 14_999_999);
    let uneven = vec![
        ActuatorState { base_x: 0, base_z: 0, height: 1, extension: 0 },
        ActuatorState { base_x: 0, base_z: 0, height: 1, extension: 0 },
        ActuatorState { base_x: 0, base_z: 0, height: 0, extension: 0 },
    ];
    assert_eq!(average_height(&uneven), 0);
    let negative = vec![
        ActuatorState { base_x: 0, base_z: 0, height: -1, extension: 0 },
        ActuatorState { base_x: 0, base_z: 0, height: -4, extension: 0 },
    ];
    assert_eq!(average_height(&negative), -2);
    let extreme = vec![
        ActuatorState { base_x: 0, base_z: 0, height: i64::MAX, extension: 0 },
        ActuatorState { base_x: 0, base_z: 0, height: i64::MAX, extension: 0 },
    ];
    assert_eq!(average_height(&extreme), i64::MAX);
    let one = vec![ActuatorState { base_x: 0, base_z: 0, height: i64::MIN, extension: 0 }];
    assert_eq!(average_height(&one), i64::MIN);
}

#[test]
fn perimeter_follows_the_outline_in_order() {
    let outline = cross(90 * MM);
    let demand = GimbalState { pitch: 10 * DEGREE, roll: 0, lift: 0 };
    let vertices = perimeter(&demand, 15 * MM, &outline);
    assert_eq!(
        vertices,
        vec![
            PlateVertex { x: 90_000_000, height: 15_000_000, z: 0 },
            PlateVertex { x: 0, height: 22_853_982, z: 90_000_000 },
            PlateVertex { x: -90_000_000, height: 15_000_000, z: 0 },
            PlateVertex { x: 0, height: 7_146_018, z: -90_000_000 },
        ]
    );
    assert_eq!(plate_vertex(&demand, 15 * MM, &outline, 1), vertices[1]);
}

#[test]
fn perimeter_through_the_actuators_meets_their_tops() {
    let layout = cross(100 * MM);
    let demand = GimbalState { pitch: 8 * DEGREE, roll: -6 * DEGREE, lift: 3 * MM };
    let (states, tops) = solve(&demand, &layout);
    let mean = average_height(&states);
    assert_eq!(mean, 18 * MM);
    assert_eq!(perimeter(&demand, mean, &layout), tops);
}

#[test]
fn heights_on_the_small_layout_match_the_formula() {
    let layout = ActuatorLayout::triangular(75 * MM).unwrap();
    let demand = GimbalState { pitch: 10 * DEGREE, roll: 0, lift: 0 };
    let (states, _) = solve(&demand, &layout);
    let heights: Vec<i64> = states.iter().map(|s| s.height).collect();
    assert_eq!(heights, vec![15_000_000, 20_668_123, 9_331_877]);
    let rise = 75.0 * 120.0_f64.to_radians().sin() * 10.0_f64.to_radians() * 0.5;
    assert!((as_mm(states[1].height) - (15.0 + rise)).abs() < 1e-6);
    assert!((as_mm(states[2].height) - (15.0 - rise)).abs() < 1e-6);
}

#[test]
fn heights_follow_the_formula_to_within_a_count() {
    let layout = ActuatorLayout::hexagonal(123_456_789).unwrap();
    for (pitch, roll) in [(20.0_f64, -20.0_f64), (3.25, 7.5), (-0.001, 0.002), (359.9, -180.0)] {
        let demand = GimbalState {
            pitch: (pitch * 1e6_f64).round() as i64,
            roll: (roll * 1e6_f64).round() as i64,
            lift: 0,
        };
        let (states, _) = solve(&demand, &layout);
        for (i, state) in states.iter().enumerate() {
            let angle = (60.0 * i as f64).to_radians();
            let x = 123.456789 * angle.cos();
            let z = 123.456789 * angle.sin();
            let tilt = (z * pitch.to_radians() + x * roll.to_radians()) * 0.5;
            assert!((as_mm(state.extension) - tilt).abs() < 1e-6);
        }
    }
}

#[test]
fn the_mean_height_of_the_even_layouts_is_the_nominal_height() {
    let demand = GimbalState { pitch: 13_370_000, roll: -4_200_000, lift: 1_234_567 };
    let nominal = BASE_NOMINAL + demand.lift;
    let three = ActuatorLayout::triangular(75 * MM).unwrap();
    let (states, _) = solve(&demand, &three);
    assert!((average_height(&states) - nominal).abs() <= 1);
    let six = ActuatorLayout::hexagonal(75 * MM).unwrap();
    let (states, _) = solve(&demand, &six);
    assert_eq!(average_height(&states), nominal);
}

#[test]
fn a_larger_sine_stands_higher_under_positive_pitch() {
    let layout = ActuatorLayout::hexagonal(75 * MM).unwrap();
    let up = GimbalState { pitch: 10 * DEGREE, roll: 0, lift: 0 };
    let down = GimbalState { pitch: -10 * DEGREE, roll: 0, lift: 0 };
    let (raised, _) = solve(&up, &layout);
    let (lowered, _) = solve(&down, &layout);
    assert!(raised[1].height > raised[0].height);
    assert!(raised[0].height > raised[5].height);
    assert!(lowered[1].height < lowered[0].height);
    assert!(lowered[0].height < lowered[5].height);
    for i in 0..6 {
        assert_eq!(lowered[i].extension, -raised[i].extension);
    }
}
