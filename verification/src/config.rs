//! The configuration of a session: authority and sensitivity of each
//! channel, the axes that drive them, and what the debug view shows.

use vstd::prelude::*;
use crate::fixed::{ANGLE_LIMIT, LIMIT};

verus! {

/// The whole configuration.
#[derive(Debug, Clone)]
pub struct Config {
    pub gimbal: GimbalConfig,
    pub controls: ControlsConfig,
    pub debug: DebugConfig,
}

/// For each channel, the largest demand it may make and the factor applied
/// to its input. Angles are in millionths of a degree, lift in millionths of
/// a millimetre, sensitivities in millionths of one. None is negative; the
/// angles are at most `ANGLE_LIMIT`, the others at most `LIMIT`.
#[derive(Debug, Clone, Copy, PartialEq, Eq, Structural)]
pub struct GimbalConfig {
    pub max_pitch: i64,
    pub max_roll: i64,
    pub max_lift: i64,
    pub pitch_sensitivity: i64,
    pub roll_sensitivity: i64,
    pub lift_sensitivity: i64,
}

/// Which inputs take part, and how large a step a held key commands, in
/// millionths of full deflection. The step may have either sign.
#[derive(Debug, Clone)]
pub struct ControlsConfig {
    pub keyboard_enabled: bool,
    pub keyboard_step: i64,
    pub joystick: JoystickConfig,
}

/// The axis that drives each channel, whether it is inverted, and the axes
/// to fall back on, in order of priority, when the channel's own axis has
/// not reported.
#[derive(Debug, Clone)]
pub struct JoystickConfig {
    pub enabled: bool,
    pub pitch_axis: String,
    pub roll_axis: String,
    pub lift_axis: String,
    pub invert_pitch: bool,
    pub invert_roll: bool,
    pub invert_lift: bool,
    pub fallback_axes: Vec<String>,
}

/// What the debug view shows.
#[derive(Debug, Clone, Copy, PartialEq, Eq, Structural)]
pub struct DebugConfig {
    pub enabled: bool,
    pub show_all_axes: bool,
    pub show_button_states: bool,
    pub log_input_values: bool,
}

/// `v` is a quantity the library computes on: not negative, and at most
/// `LIMIT`.
pub open spec fn admissible(v: i64) -> bool {
    0 <= v <= LIMIT
}

/// `v` is an angle the library computes on: not negative, and at most
/// `ANGLE_LIMIT`.
pub open spec fn admissible_angle(v: i64) -> bool {
    0 <= v <= ANGLE_LIMIT
}

/// The names held by a list of strings.
pub open spec fn names(list: Seq<String>) -> Seq<Seq<char>> {
    Seq::new(list.len(), |i: int| list[i]@)
}

/// The fallback axes of the default configuration: the left stick, the left
/// trigger axis, then the three translation axes of a motion controller.
pub open spec fn default_fallback_names() -> Seq<Seq<char>> {
    seq!["LeftStickY"@, "LeftStickX"@, "LeftZ"@, "Tz"@, "Ty"@, "Tx"@]
}

impl GimbalConfig {
    /// Every authority and every sensitivity is admissible.
    pub open spec fn valid(&self) -> bool {
        &&& admissible_angle(self.max_pitch)
        &&& admissible_angle(self.max_roll)
        &&& admissible(self.max_lift)
        &&& admissible(self.pitch_sensitivity)
        &&& admissible(self.roll_sensitivity)
        &&& admissible(self.lift_sensitivity)
    }

    /// Tests `valid`.
    pub fn is_valid(&self) -> (b: bool)
        ensures
            b == self.valid(),
    {
        0 <= self.max_pitch && self.max_pitch <= ANGLE_LIMIT && 0 <= self.max_roll
            && self.max_roll <= ANGLE_LIMIT && 0 <= self.max_lift && self.max_lift <= LIMIT && 0
            <= self.pitch_sensitivity && self.pitch_sensitivity <= LIMIT && 0
            <= self.roll_sensitivity && self.roll_sensitivity <= LIMIT && 0
            <= self.lift_sensitivity && self.lift_sensitivity <= LIMIT
    }
}

impl ControlsConfig {
    /// The keyboard step can be negated: a key commands the step, and the
    /// key opposite it the step's negative.
    pub open spec fn valid(&self) -> bool {
        self.keyboard_step > i64::MIN
    }

    /// Tests `valid`.
    pub fn is_valid(&self) -> (b: bool)
        ensures
            b == self.valid(),
    {
        self.keyboard_step > i64::MIN
    }
}

impl Config {
    /// Every authority and sensitivity is admissible, and the keyboard step
    /// can be negated.
    pub open spec fn valid(&self) -> bool {
        &&& self.gimbal.valid()
        &&& self.controls.valid()
    }

    /// Tests `valid`.
    pub fn is_valid(&self) -> (b: bool)
        ensures
            b == self.valid(),
    {
        self.gimbal.is_valid() && self.controls.is_valid()
    }
}

impl Default for GimbalConfig {
    /// Twenty degrees of pitch and of roll, fifteen millimetres of lift, and
    /// a sensitivity of one throughout.
    fn default() -> (gimbal: Self)
        ensures
            gimbal == (GimbalConfig {
                max_pitch: 20_000_000,
                max_roll: 20_000_000,
                max_lift: 15_000_000,
                pitch_sensitivity: 1_000_000,
                roll_sensitivity: 1_000_000,
                lift_sensitivity: 1_000_000,
            }),
            gimbal.valid(),
    {
        GimbalConfig {
            max_pitch: 20_000_000,
            max_roll: 20_000_000,
            max_lift: 15_000_000,
            pitch_sensitivity: 1_000_000,
            roll_sensitivity: 1_000_000,
            lift_sensitivity: 1_000_000,
        }
    }
}

impl Default for JoystickConfig {
    /// The right stick drives pitch and roll and the right trigger axis
    /// drives lift, nothing is inverted, and six axes stand by as fallbacks.
    fn default() -> (joystick: Self)
        ensures
            joystick.enabled,
            joystick.pitch_axis@ == "RightStickY"@,
            joystick.roll_axis@ == "RightStickX"@,
            joystick.lift_axis@ == "RightZ"@,
            !joystick.invert_pitch,
            !joystick.invert_roll,
            !joystick.invert_lift,
            names(joystick.fallback_axes@) == default_fallback_names(),
    {
        let mut fallback_axes: Vec<String> = Vec::new();
        fallback_axes.push("LeftStickY".to_owned());
        fallback_axes.push("LeftStickX".to_owned());
        fallback_axes.push("LeftZ".to_owned());
        fallback_axes.push("Tz".to_owned());
        fallback_axes.push("Ty".to_owned());
        fallback_axes.push("Tx".to_owned());
        JoystickConfig {
            enabled: true,
            pitch_axis: "RightStickY".to_owned(),
            roll_axis: "RightStickX".to_owned(),
            lift_axis: "RightZ".to_owned(),
            invert_pitch: false,
            invert_roll: false,
            invert_lift: false,
            fallback_axes,
        }
    }
}

impl Default for ControlsConfig {
    /// Keyboard and joystick both take part; a held key commands a tenth of
    /// full deflection.
    fn default() -> (controls: Self)
        ensures
            controls.keyboard_enabled,
            controls.keyboard_step == 100_000,
            controls.joystick.enabled,
            controls.joystick.pitch_axis@ == "RightStickY"@,
            controls.joystick.roll_axis@ == "RightStickX"@,
            controls.joystick.lift_axis@ == "RightZ"@,
            !controls.joystick.invert_pitch,
            !controls.joystick.invert_roll,
            !controls.joystick.invert_lift,
            names(controls.joystick.fallback_axes@) == default_fallback_names(),
            controls.valid(),
    {
        ControlsConfig {
            keyboard_enabled: true,
            keyboard_step: 100_000,
            joystick: JoystickConfig::default(),
        }
    }
}

impl Default for DebugConfig {
    /// The debug view is off; when on it shows axes and buttons and logs
    /// nothing.
    fn default() -> (debug: Self)
        ensures
            debug == (DebugConfig {
                enabled: false,
                show_all_axes: true,
                show_button_states: true,
                log_input_values: false,
            }),
    {
        DebugConfig {
            enabled: false,
            show_all_axes: true,
            show_button_states: true,
            log_input_values: false,
        }
    }
}

impl Default for Config {
    /// The configuration a session starts from when none is given.
    fn default() -> (config: Self)
        ensures
            config.gimbal == (GimbalConfig {
                max_pitch: 20_000_000,
                max_roll: 20_000_000,
                max_lift: 15_000_000,
                pitch_sensitivity: 1_000_000,
                roll_sensitivity: 1_000_000,
                lift_sensitivity: 1_000_000,
            }),
            config.controls.keyboard_enabled,
            config.controls.keyboard_step == 100_000,
            config.controls.joystick.enabled,
            config.controls.joystick.pitch_axis@ == "RightStickY"@,
            config.controls.joystick.roll_axis@ == "RightStickX"@,
            config.controls.joystick.lift_axis@ == "RightZ"@,
            !config.controls.joystick.invert_pitch,
            !config.controls.joystick.invert_roll,
            !config.controls.joystick.invert_lift,
            names(config.controls.joystick.fallback_axes@) == default_fallback_names(),
            config.debug == (DebugConfig {
                enabled: false,
                show_all_axes: true,
                show_button_states: true,
                log_input_values: false,
            }),
            config.valid(),
    {
        Config {
            gimbal: GimbalConfig::default(),
            controls: ControlsConfig::default(),
            debug: DebugConfig::default(),
        }
    }
}

} // verus!
