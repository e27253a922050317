use gimbal_control::display::{
    edge_shade, lift_notice, tilt_exceeds, LiftNotice, Shade, TILT_READOUT, TILT_WARNING,
};
use gimbal_control::gimbal::GimbalState;
use gimbal_control::session::{command_for, Command, Key};

fn tilted(pitch: i64, roll: i64) -> GimbalState {
    GimbalState { pitch, roll, lift: 0 }
}

#[test]
fn tilt_is_measured_across_both_angles() {
    assert!(!tilt_exceeds(&tilted(0, 0), TILT_WARNING));
    assert!(!tilt_exceeds(&tilted(1_000_000, 0), TILT_WARNING));
    assert!(tilt_exceeds(&tilted(1_000_001, 0), TILT_WARNING));
    assert!(tilt_exceeds(&tilted(0, -1_000_001), TILT_WARNING));
    assert!(!tilt_exceeds(&tilted(600_000, 800_000), TILT_WARNING));
    assert!(tilt_exceeds(&tilted(600_000, 800_001), TILT_WARNING));
    assert!(tilt_exceeds(&tilted(-800_000, -600_001), TILT_WARNING));
    assert!(!tilt_exceeds(&tilted(180_000, 240_000), TILT_READOUT));
    assert!(tilt_exceeds(&tilted(180_001, 240_000), TILT_READOUT));
}

#[test]
fn tilt_test_takes_the_largest_values() {
    assert!(tilt_exceeds(&tilted(i64::MIN, i64::MIN), i64::MAX));
    assert!(tilt_exceeds(&tilted(i64::MIN, 0), i64::MAX));
    assert!(!tilt_exceeds(&tilted(i64::MAX, 0), i64::MIN));
    assert!(!tilt_exceeds(&tilted(i64::MAX, 0), i64::MAX));
    assert!(tilt_exceeds(&tilted(i64::MAX, 1), i64::MAX));
    assert!(!tilt_exceeds(&tilted(3, 4), -5));
    assert!(tilt_exceeds(&tilted(3, 4), -4));
}

#[test]
fn lift_is_marked_beyond_a_millimetre() {
    let lifted = |lift: i64| GimbalState { pitch: 0, roll: 0, lift };
    assert_eq!(lift_notice(&lifted(0)), LiftNotice::Unmarked);
    assert_eq!(lift_notice(&lifted(1_000_000)), LiftNotice::Unmarked);
    assert_eq!(lift_notice(&lifted(-1_000_000)), LiftNotice::Unmarked);
    assert_eq!(lift_notice(&lifted(1_000_001)), LiftNotice::Raised);
    assert_eq!(lift_notice(&lifted(-1_000_001)), LiftNotice::Lowered);
}

#[test]
fn edges_are_shaded_by_the_rise_of_their_middle() {
    let nominal = 15_000_000;
    assert_eq!(edge_shade(nominal, nominal, nominal), Shade::Dim);
    assert_eq!(edge_shade(17_500_000, 17_500_000, nominal), Shade::Dim);
    assert_eq!(edge_shade(17_500_000, 17_500_001, nominal), Shade::Mid);
    assert_eq!(edge_shade(22_000_000, 22_000_000, nominal), Shade::Mid);
    assert_eq!(edge_shade(22_000_001, 22_000_000, nominal), Shade::Bright);
    assert_eq!(edge_shade(30_000_000, 14_000_001, nominal), Shade::Bright);
    assert_eq!(edge_shade(30_000_000, 14_000_000, nominal), Shade::Mid);
    assert_eq!(edge_shade(0, 0, nominal), Shade::Dim);
    assert_eq!(edge_shade(i64::MAX, i64::MAX, i64::MIN), Shade::Bright);
    assert_eq!(edge_shade(i64::MIN, i64::MIN, i64::MAX), Shade::Dim);
}

#[test]
fn keys_map_to_commands() {
    assert_eq!(command_for(Key::Char('q')), Command::Quit);
    assert_eq!(command_for(Key::Escape), Command::Quit);
    assert_eq!(command_for(Key::Char('t')), Command::ToggleDebug);
    assert_eq!(command_for(Key::Char('x')), Command::Reset);
    assert_eq!(command_for(Key::Char('X')), Command::Steer('X'));
    assert_eq!(command_for(Key::Char('w')), Command::Steer('w'));
    assert_eq!(command_for(Key::Char('f')), Command::Steer('f'));
    assert_eq!(command_for(Key::Char('r')), Command::Steer('r'));
    for key in ['w', 's', 'a', 'd', 'r', 'f', 'W', 'S', 'A', 'D', 'R', 'F'] {
        assert_eq!(command_for(Key::Char(key)), Command::Steer(key));
    }
    assert_eq!(command_for(Key::Char('Q')), Command::Steer('Q'));
    assert_eq!(command_for(Key::Char('R')), Command::Steer('R'));
    assert_eq!(command_for(Key::Char(' ')), Command::Steer(' '));
    assert_eq!(command_for(Key::Other), Command::Ignore);
}
