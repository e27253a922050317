//! The control mapper: from input samples to the commanded orientation.
//!
//! Each of the three channels (pitch, roll, lift) takes the sample of its
//! own axis or, when that axis has not reported, of the first fallback axis
//! with a significant sample; inverts it where asked; adds the step that a
//! held key commands; and scales the sum by the channel's sensitivity and
//! authority, never beyond the authority.

use vstd::prelude::*;
use crate::axis::{
    parse_axis_name, significant, spec_parse_axis_name, Axis, AxisSamples, SIGNIFICANCE,
};
use crate::button::{Button, ButtonSamples};
use crate::config::{Config, ControlsConfig, JoystickConfig};
use crate::fixed::{
    clamp_sym, div_trunc, lemma_div_trunc_negated, lemma_product_negated, within, ANGLE_LIMIT,
    LIMIT,
};

verus! {

/// Bound on the magnitude of a channel's raw contribution.
pub const RAW_LIMIT: i128 = 0x1_0000_0000_0000_0000;

/// The commanded orientation: pitch and roll in millionths of a degree,
/// lift in millionths of a millimetre.
#[derive(Clone, Copy, Debug, PartialEq, Eq, Structural)]
pub struct GimbalState {
    pub pitch: i64,
    pub roll: i64,
    pub lift: i64,
}

impl GimbalState {
    /// The angles are at most `ANGLE_LIMIT` in magnitude and the lift at
    /// most `LIMIT`.
    pub open spec fn in_range(&self) -> bool {
        &&& within(self.pitch as int, ANGLE_LIMIT as int)
        &&& within(self.roll as int, ANGLE_LIMIT as int)
        &&& within(self.lift as int, LIMIT as int)
    }

    /// Tests `in_range`.
    pub fn is_in_range(&self) -> (b: bool)
        ensures
            b == self.in_range(),
    {
        -ANGLE_LIMIT <= self.pitch && self.pitch <= ANGLE_LIMIT && -ANGLE_LIMIT <= self.roll
            && self.roll <= ANGLE_LIMIT && -LIMIT <= self.lift && self.lift <= LIMIT
    }

    /// No component exceeds the authority that `config` grants its channel.
    pub open spec fn within_authority(&self, config: Config) -> bool {
        &&& within(self.pitch as int, config.gimbal.max_pitch as int)
        &&& within(self.roll as int, config.gimbal.max_roll as int)
        &&& within(self.lift as int, config.gimbal.max_lift as int)
    }
}

impl Default for GimbalState {
    /// The level, unlifted orientation.
    fn default() -> (state: Self)
        ensures
            state == (GimbalState { pitch: 0, roll: 0, lift: 0 }),
    {
        GimbalState { pitch: 0, roll: 0, lift: 0 }
    }
}

/// What the input devices report at one instant: the axes' samples, the
/// buttons' states, and the step each channel has from the keyboard.
#[derive(Debug)]
pub struct InputState {
    pub axes: AxisSamples,
    pub buttons: ButtonSamples,
    pub keyboard_pitch: i64,
    pub keyboard_roll: i64,
    pub keyboard_lift: i64,
}

impl Default for InputState {
    /// Nothing has reported and no key is held.
    fn default() -> (input: Self)
        ensures
            input.axes@ == Map::<Axis, i64>::empty(),
            input.buttons@ == Map::<Button, bool>::empty(),
            input.keyboard_pitch == 0,
            input.keyboard_roll == 0,
            input.keyboard_lift == 0,
    {
        InputState {
            axes: AxisSamples::new(),
            buttons: ButtonSamples::new(),
            keyboard_pitch: 0,
            keyboard_roll: 0,
            keyboard_lift: 0,
        }
    }
}

/// What an input device reports.
#[derive(Clone, Copy, Debug, PartialEq, Eq, Structural)]
pub enum InputEvent {
    ButtonPressed(Button),
    ButtonReleased(Button),
    /// An axis moved to a new sample, in millionths of full deflection.
    AxisChanged(Axis, i64),
    /// Anything else: nothing the mapper keeps.
    Other,
}

impl InputState {
    /// Records what a device reported: the new sample of an axis, or the
    /// new state of a button. What the keyboard holds stays as it was.
    pub fn record(&mut self, event: InputEvent)
        ensures
            final(self).axes@ == (match event {
                InputEvent::AxisChanged(axis, value) => old(self).axes@.insert(axis, value),
                _ => old(self).axes@,
            }),
            final(self).buttons@ == (match event {
                InputEvent::ButtonPressed(button) => old(self).buttons@.insert(button, true),
                InputEvent::ButtonReleased(button) => old(self).buttons@.insert(button, false),
                _ => old(self).buttons@,
            }),
            final(self).keyboard_pitch == old(self).keyboard_pitch,
            final(self).keyboard_roll == old(self).keyboard_roll,
            final(self).keyboard_lift == old(self).keyboard_lift,
    {
        match event {
            InputEvent::ButtonPressed(button) => {
                self.buttons.insert(button, true);
            },
            InputEvent::ButtonReleased(button) => {
                self.buttons.insert(button, false);
            },
            InputEvent::AxisChanged(axis, value) => {
                self.axes.insert(axis, value);
            },
            InputEvent::Other => {},
        }
    }

    /// Forgets every held key: the keyboard commands nothing until a key is
    /// pressed again.
    pub fn clear_keyboard(&mut self)
        ensures
            final(self).axes == old(self).axes,
            final(self).buttons == old(self).buttons,
            final(self).keyboard_pitch == 0,
            final(self).keyboard_roll == 0,
            final(self).keyboard_lift == 0,
    {
        self.keyboard_pitch = 0;
        self.keyboard_roll = 0;
        self.keyboard_lift = 0;
    }
}

/// The sample of the axis called `name`: none when the name is not known or
/// the axis has not reported.
pub open spec fn reading(samples: Map<Axis, i64>, name: Seq<char>) -> Option<i64> {
    match spec_parse_axis_name(name) {
        Some(axis) => if samples.contains_key(axis) {
            Some(samples[axis])
        } else {
            None
        },
        None => None,
    }
}

/// Fallback `i` can stand in: its axis has reported a significant sample.
pub open spec fn fallback_hit(samples: Map<Axis, i64>, fallbacks: Seq<String>, i: int) -> bool {
    &&& 0 <= i < fallbacks.len()
    &&& reading(samples, fallbacks[i]@) matches Some(value)
    &&& significant(value as int)
}

/// The sample of the first fallback from place `from` on that can stand in,
/// or zero when none can.
pub open spec fn fallback_value(samples: Map<Axis, i64>, fallbacks: Seq<String>, from: int) -> int
    decreases fallbacks.len() - from,
{
    if from < 0 || from >= fallbacks.len() {
        0
    } else if fallback_hit(samples, fallbacks, from) {
        reading(samples, fallbacks[from]@)->0 as int
    } else {
        fallback_value(samples, fallbacks, from + 1)
    }
}

/// What the joystick contributes to the channel driven by the axis called
/// `name`: that axis's sample if it has reported, else the first fallback
/// that can stand in, else zero.
pub open spec fn spec_joystick_value(
    joystick: JoystickConfig,
    samples: Map<Axis, i64>,
    name: Seq<char>,
) -> int {
    match reading(samples, name) {
        Some(value) => value as int,
        None => fallback_value(samples, joystick.fallback_axes@, 0),
    }
}

/// Reads the axis called `name`.
pub fn read_axis(samples: &AxisSamples, name: &str) -> (sample: Option<i64>)
    ensures
        sample == reading(samples@, name@),
{
    match parse_axis_name(name) {
        Some(axis) => samples.get(axis),
        None => None,
    }
}

/// Computes `spec_joystick_value`.
pub fn joystick_value(joystick: &JoystickConfig, samples: &AxisSamples, name: &str) -> (value: i64)
    ensures
        value == spec_joystick_value(*joystick, samples@, name@),
{
    if let Some(value) = read_axis(samples, name) {
        return value;
    }
    let n = joystick.fallback_axes.len();
    let mut i: usize = 0;
    while i < n
        invariant
            reading(samples@, name@) is None,
            n == joystick.fallback_axes@.len(),
            i <= n,
            fallback_value(samples@, joystick.fallback_axes@, 0) == fallback_value(
                samples@,
                joystick.fallback_axes@,
                i as int,
            ),
        decreases n - i,
    {
        if let Some(value) = read_axis(samples, joystick.fallback_axes[i].as_str()) {
            if value > SIGNIFICANCE || value < -SIGNIFICANCE {
                return value;
            }
        }
        i += 1;
    }
    0
}

/// When the channel's own axis has not reported, the joystick contributes
/// the sample of the first fallback that can stand in: a fallback before
/// which none can.
pub proof fn lemma_first_significant_fallback(
    joystick: JoystickConfig,
    samples: Map<Axis, i64>,
    name: Seq<char>,
    i: int,
)
    requires
        reading(samples, name) is None,
        fallback_hit(samples, joystick.fallback_axes@, i),
        forall|j: int| 0 <= j < i ==> !fallback_hit(samples, joystick.fallback_axes@, j),
    ensures
        spec_joystick_value(joystick, samples, name) == reading(
            samples,
            joystick.fallback_axes@[i]@,
        )->0,
{
    lemma_fallback_skips(samples, joystick.fallback_axes@, 0, i);
}

/// When neither the channel's own axis nor any fallback can be used, the
/// joystick contributes nothing.
pub proof fn lemma_no_fallback(joystick: JoystickConfig, samples: Map<Axis, i64>, name: Seq<char>)
    requires
        reading(samples, name) is None,
        forall|j: int| !fallback_hit(samples, joystick.fallback_axes@, j),
    ensures
        spec_joystick_value(joystick, samples, name) == 0,
{
    lemma_fallback_skips(samples, joystick.fallback_axes@, 0, joystick.fallback_axes@.len() as int);
}

/// Fallbacks that cannot stand in are passed over.
proof fn lemma_fallback_skips(samples: Map<Axis, i64>, fallbacks: Seq<String>, from: int, to: int)
    requires
        0 <= from <= to <= fallbacks.len(),
        forall|j: int| from <= j < to ==> !fallback_hit(samples, fallbacks, j),
    ensures
        fallback_value(samples, fallbacks, from) == fallback_value(samples, fallbacks, to),
    decreases to - from,
{
    if from < to {
        lemma_fallback_skips(samples, fallbacks, from + 1, to);
    }
}

/// The joystick's part of a channel's raw contribution: its value, negated
/// when the channel is inverted, or nothing when the joystick is disabled.
pub open spec fn spec_joystick_part(
    controls: ControlsConfig,
    samples: Map<Axis, i64>,
    name: Seq<char>,
    invert: bool,
) -> int {
    if controls.joystick.enabled {
        let value = spec_joystick_value(controls.joystick, samples, name);
        if invert {
            -value
        } else {
            value
        }
    } else {
        0
    }
}

/// The keyboard's part of a channel's raw contribution: the step it holds
/// for the channel, or nothing when the keyboard is disabled.
pub open spec fn spec_keyboard_part(controls: ControlsConfig, keyboard: int) -> int {
    if controls.keyboard_enabled {
        keyboard
    } else {
        0
    }
}

/// A channel's raw contribution: joystick and keyboard together.
pub open spec fn spec_raw(
    controls: ControlsConfig,
    samples: Map<Axis, i64>,
    name: Seq<char>,
    invert: bool,
    keyboard: int,
) -> int {
    spec_joystick_part(controls, samples, name, invert) + spec_keyboard_part(controls, keyboard)
}

/// Computes `spec_raw`.
pub fn raw_contribution(
    controls: &ControlsConfig,
    samples: &AxisSamples,
    name: &str,
    invert: bool,
    keyboard: i64,
) -> (raw: i128)
    ensures
        raw == spec_raw(*controls, samples@, name@, invert, keyboard as int),
        within(raw as int, RAW_LIMIT as int),
{
    let mut raw: i128 = 0;
    if controls.joystick.enabled {
        let value: i128 = joystick_value(&controls.joystick, samples, name) as i128;
        raw = if invert {
            -value
        } else {
            value
        };
    }
    if controls.keyboard_enabled {
        raw = raw + keyboard as i128;
    }
    raw
}

/// A raw contribution scaled by the channel's sensitivity and authority,
/// and held within the authority. Raw contribution and sensitivity are both
/// in millionths, so their product with the authority is divided by a
/// million squared.
pub open spec fn spec_scale(raw: int, sensitivity: int, max: int) -> int {
    clamp_sym(div_trunc(raw * sensitivity * max, 1_000_000_000_000), max)
}

/// Computes `spec_scale`. The product of the three factors may be too large
/// for any machine integer, so the factors are multiplied one at a time, and
/// only while the result is still below the point at which it is clamped.
pub fn scale_demand(raw: i128, sensitivity: i64, max: i64) -> (out: i64)
    requires
        within(raw as int, RAW_LIMIT as int),
        0 <= sensitivity,
        0 <= max,
    ensures
        out == spec_scale(raw as int, sensitivity as int, max as int),
        within(out as int, max as int),
{
    if raw == 0 || sensitivity == 0 || max == 0 {
        assert(raw * sensitivity * max == 0) by (nonlinear_arith)
            requires
                raw == 0 || sensitivity == 0 || max == 0,
        ;
        return 0;
    }
    let unit: i128 = 1_000_000_000_000;
    let negative = raw < 0;
    let size: i128 = if negative {
        -raw
    } else {
        raw
    };
    let ghost product: int = size * sensitivity * max;
    proof {
        if negative {
            lemma_product_negated(size as int, sensitivity as int);
            lemma_product_negated(size * sensitivity, max as int);
        }
        assert(raw * sensitivity * max == if negative {
            -product
        } else {
            product
        });
    }
    let quotient: i64 = if size >= unit {
        assert(size * sensitivity >= unit) by (nonlinear_arith)
            requires
                size >= unit,
                unit >= 0,
                sensitivity >= 1,
        ;
        assert(product >= unit * max) by (nonlinear_arith)
            requires
                product == (size * sensitivity) * max,
                size * sensitivity >= unit,
                max >= 0,
        ;
        max
    } else {
        assert(0 <= size * sensitivity <= 1_000_000_000_000 * 0x7fff_ffff_ffff_ffff)
            by (nonlinear_arith)
            requires
                0 <= size <= 1_000_000_000_000,
                0 <= sensitivity <= 0x7fff_ffff_ffff_ffff,
        ;
        let weighted: i128 = size * (sensitivity as i128);
        if weighted >= unit {
            assert(product >= unit * max) by (nonlinear_arith)
                requires
                    product == weighted * max,
                    weighted >= unit,
                    max >= 0,
            ;
            max
        } else {
            assert(0 <= product < unit * max) by (nonlinear_arith)
                requires
                    product == weighted * max,
                    0 <= weighted < unit,
                    max > 0,
            ;
            let scaled: i128 = weighted * (max as i128);
            (scaled / unit) as i64
        }
    };
    if negative {
        -quotient
    } else {
        quotient
    }
}

/// The demand that `input` makes under `config`.
pub open spec fn spec_demand(config: Config, input: InputState) -> GimbalState {
    GimbalState {
        pitch: spec_scale(
            spec_raw(
                config.controls,
                input.axes@,
                config.controls.joystick.pitch_axis@,
                config.controls.joystick.invert_pitch,
                input.keyboard_pitch as int,
            ),
            config.gimbal.pitch_sensitivity as int,
            config.gimbal.max_pitch as int,
        ) as i64,
        roll: spec_scale(
            spec_raw(
                config.controls,
                input.axes@,
                config.controls.joystick.roll_axis@,
                config.controls.joystick.invert_roll,
                input.keyboard_roll as int,
            ),
            config.gimbal.roll_sensitivity as int,
            config.gimbal.max_roll as int,
        ) as i64,
        lift: spec_scale(
            spec_raw(
                config.controls,
                input.axes@,
                config.controls.joystick.lift_axis@,
                config.controls.joystick.invert_lift,
                input.keyboard_lift as int,
            ),
            config.gimbal.lift_sensitivity as int,
            config.gimbal.max_lift as int,
        ) as i64,
    }
}

/// Maps the input to the demand it makes: `spec_demand`, which never
/// exceeds the authority of any channel.
pub fn demand(config: &Config, input: &InputState) -> (state: GimbalState)
    requires
        config.gimbal.valid(),
    ensures
        state == spec_demand(*config, *input),
        state.within_authority(*config),
        state.in_range(),
{
    let joystick = &config.controls.joystick;
    let pitch = scale_demand(
        raw_contribution(
            &config.controls,
            &input.axes,
            joystick.pitch_axis.as_str(),
            joystick.invert_pitch,
            input.keyboard_pitch,
        ),
        config.gimbal.pitch_sensitivity,
        config.gimbal.max_pitch,
    );
    let roll = scale_demand(
        raw_contribution(
            &config.controls,
            &input.axes,
            joystick.roll_axis.as_str(),
            joystick.invert_roll,
            input.keyboard_roll,
        ),
        config.gimbal.roll_sensitivity,
        config.gimbal.max_roll,
    );
    let lift = scale_demand(
        raw_contribution(
            &config.controls,
            &input.axes,
            joystick.lift_axis.as_str(),
            joystick.invert_lift,
            input.keyboard_lift,
        ),
        config.gimbal.lift_sensitivity,
        config.gimbal.max_lift,
    );
    GimbalState { pitch, roll, lift }
}

/// The step a key commands: the configured step while it is held, nothing
/// once it is released.
pub open spec fn spec_key_step(controls: ControlsConfig, pressed: bool) -> i64 {
    if pressed {
        controls.keyboard_step
    } else {
        0
    }
}

/// The input after a key was pressed or released. W and S command pitch
/// forward and back, D and A roll right and left, R and F lift up and down,
/// in either case of the letter; other keys, and every key while the
/// keyboard is disabled, change nothing.
pub open spec fn spec_handle_keyboard(
    controls: ControlsConfig,
    input: InputState,
    key: char,
    pressed: bool,
) -> InputState {
    let step = spec_key_step(controls, pressed);
    if !controls.keyboard_enabled {
        input
    } else if key == 'w' || key == 'W' {
        InputState { keyboard_pitch: step, ..input }
    } else if key == 's' || key == 'S' {
        InputState { keyboard_pitch: (-step) as i64, ..input }
    } else if key == 'a' || key == 'A' {
        InputState { keyboard_roll: (-step) as i64, ..input }
    } else if key == 'd' || key == 'D' {
        InputState { keyboard_roll: step, ..input }
    } else if key == 'r' || key == 'R' {
        InputState { keyboard_lift: step, ..input }
    } else if key == 'f' || key == 'F' {
        InputState { keyboard_lift: (-step) as i64, ..input }
    } else {
        input
    }
}

/// Holds a configuration and the demand last computed under it.
pub struct GimbalController {
    config: Config,
    state: GimbalState,
}

impl GimbalController {
    /// The configuration the controller was made with.
    pub closed spec fn config(&self) -> Config {
        self.config
    }

    /// The demand last computed, or the level orientation if none was.
    pub closed spec fn state(&self) -> GimbalState {
        self.state
    }

    #[verifier::type_invariant]
    spec fn well_formed(&self) -> bool {
        &&& self.config.valid()
        &&& self.state.within_authority(self.config)
    }

    /// A controller at the level orientation.
    pub fn new(config: Config) -> (controller: Self)
        requires
            config.valid(),
        ensures
            controller.config() == config,
            controller.state() == (GimbalState { pitch: 0, roll: 0, lift: 0 }),
    {
        GimbalController { config, state: GimbalState::default() }
    }

    /// Replaces the demand by the one that `input` makes.
    pub fn update(&mut self, input: &InputState)
        ensures
            final(self).config() == old(self).config(),
            final(self).state() == spec_demand(old(self).config(), *input),
            final(self).state().within_authority(old(self).config()),
    {
        proof {
            use_type_invariant(&*self);
        }
        self.state = demand(&self.config, input);
    }

    /// What the joystick contributes to the channel driven by the axis
    /// called `axis_name`.
    pub fn get_joystick_axis_value(&self, input: &InputState, axis_name: &str) -> (value: i64)
        ensures
            value == spec_joystick_value(self.config().controls.joystick, input.axes@, axis_name@),
    {
        joystick_value(&self.config.controls.joystick, &input.axes, axis_name)
    }

    /// Records in `input` that a key was pressed or released.
    pub fn handle_keyboard(&mut self, input: &mut InputState, key: char, pressed: bool)
        ensures
            final(self).config() == old(self).config(),
            final(self).state() == old(self).state(),
            *final(input) == spec_handle_keyboard(
                old(self).config().controls,
                *old(input),
                key,
                pressed,
            ),
    {
        proof {
            use_type_invariant(&*self);
        }
        if !self.config.controls.keyboard_enabled {
            return ;
        }
        let step: i64 = if pressed {
            self.config.controls.keyboard_step
        } else {
            0
        };
        if key == 'w' || key == 'W' {
            input.keyboard_pitch = step;
        } else if key == 's' || key == 'S' {
            input.keyboard_pitch = -step;
        } else if key == 'a' || key == 'A' {
            input.keyboard_roll = -step;
        } else if key == 'd' || key == 'D' {
            input.keyboard_roll = step;
        } else if key == 'r' || key == 'R' {
            input.keyboard_lift = step;
        } else if key == 'f' || key == 'F' {
            input.keyboard_lift = -step;
        }
    }

    /// Returns to the level orientation.
    pub fn reset(&mut self)
        ensures
            final(self).config() == old(self).config(),
            final(self).state() == (GimbalState { pitch: 0, roll: 0, lift: 0 }),
    {
        proof {
            use_type_invariant(&*self);
        }
        self.state = GimbalState::default();
    }

    /// The demand last computed. It is within the authority of every
    /// channel, and so within the range the solver accepts.
    pub fn get_state(&self) -> (state: &GimbalState)
        ensures
            *state == self.state(),
            state.within_authority(self.config()),
            state.in_range(),
    {
        proof {
            use_type_invariant(self);
        }
        &self.state
    }

    /// The configuration the controller was made with.
    pub fn get_config(&self) -> (config: &Config)
        ensures
            *config == self.config(),
            config.valid(),
    {
        proof {
            use_type_invariant(self);
        }
        &self.config
    }
}

/// No demand exceeds the authority of its channel.
pub proof fn lemma_demand_within_authority(config: Config, input: InputState)
    requires
        config.gimbal.valid(),
    ensures
        spec_demand(config, input).within_authority(config),
        spec_demand(config, input).in_range(),
{
}

/// With no axis reporting and the keyboard disabled, nothing is demanded.
pub proof fn lemma_idle_demand_is_zero(config: Config, input: InputState)
    requires
        config.gimbal.valid(),
        input.axes@ == Map::<Axis, i64>::empty(),
        !config.controls.keyboard_enabled,
    ensures
        spec_demand(config, input) == (GimbalState { pitch: 0, roll: 0, lift: 0 }),
{
    let joystick = config.controls.joystick;
    let samples = input.axes@;
    assert forall|name: Seq<char>| #[trigger] spec_joystick_value(joystick, samples, name) == 0 by {
        assert forall|j: int| !fallback_hit(samples, joystick.fallback_axes@, j) by {}
        lemma_no_fallback(joystick, samples, name);
    }
    assert(forall|a: int, b: int| #[trigger] (0 * a * b) == 0) by (nonlinear_arith);
}

/// `config` with the inversion of the pitch channel set to `invert`.
pub open spec fn with_invert_pitch(config: Config, invert: bool) -> Config {
    Config {
        controls: ControlsConfig {
            joystick: JoystickConfig { invert_pitch: invert, ..config.controls.joystick },
            ..config.controls
        },
        ..config
    }
}

/// Scaling commutes with negation.
pub proof fn lemma_scale_negated(raw: int, sensitivity: int, max: int)
    requires
        0 <= max,
    ensures
        spec_scale(-raw, sensitivity, max) == -spec_scale(raw, sensitivity, max),
{
    lemma_product_negated(raw, sensitivity);
    lemma_product_negated(raw * sensitivity, max);
    lemma_div_trunc_negated(raw * sensitivity * max, 1_000_000_000_000);
}

/// Toggling the inversion of pitch negates what the joystick contributes to
/// pitch and leaves roll and lift as they were. Where the keyboard adds
/// nothing to pitch, the pitch demanded is negated too.
pub proof fn lemma_invert_pitch(config: Config, input: InputState)
    requires
        config.gimbal.valid(),
    ensures
        ({
            let toggled = with_invert_pitch(config, !config.controls.joystick.invert_pitch);
            let name = config.controls.joystick.pitch_axis@;
            &&& spec_joystick_part(toggled.controls, input.axes@, name, toggled.controls.joystick.invert_pitch)
                == -spec_joystick_part(
                config.controls,
                input.axes@,
                name,
                config.controls.joystick.invert_pitch,
            )
            &&& spec_demand(toggled, input).roll == spec_demand(config, input).roll
            &&& spec_demand(toggled, input).lift == spec_demand(config, input).lift
            &&& spec_keyboard_part(config.controls, input.keyboard_pitch as int) == 0
                ==> spec_demand(toggled, input).pitch == -spec_demand(config, input).pitch
        }),
{
    let toggled = with_invert_pitch(config, !config.controls.joystick.invert_pitch);
    let name = config.controls.joystick.pitch_axis@;
    let samples = input.axes@;
    assert forall|n: Seq<char>|
        spec_joystick_value(toggled.controls.joystick, samples, n) == #[trigger] spec_joystick_value(
            config.controls.joystick,
            samples,
            n,
        ) by {}
    let before = spec_raw(
        config.controls,
        samples,
        name,
        config.controls.joystick.invert_pitch,
        input.keyboard_pitch as int,
    );
    if spec_keyboard_part(config.controls, input.keyboard_pitch as int) == 0 {
        lemma_scale_negated(
            before,
            config.gimbal.pitch_sensitivity as int,
            config.gimbal.max_pitch as int,
        );
    }
}

} // verus!
