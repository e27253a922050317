//! Buttons, and the table of their latest states.

use vstd::prelude::*;

verus! {

/// A button of a controller.
#[derive(Clone, Copy, Debug, PartialEq, Eq, Hash, Structural)]
pub enum Button {
    // Action pad
    South,
    East,
    North,
    West,
    C,
    Z,
    // Triggers
    LeftTrigger,
    LeftTrigger2,
    RightTrigger,
    RightTrigger2,
    // Menu pad
    Select,
    Start,
    Mode,
    // Sticks
    LeftThumb,
    RightThumb,
    // D-pad
    DPadUp,
    DPadDown,
    DPadLeft,
    DPadRight,
    /// A button the device reports that is none of the above.
    Unknown,
}

/// The number of buttons.
pub const BUTTON_COUNT: usize = 20;

impl Button {
    /// The place of the button in the order of declaration.
    pub open spec fn spec_index(self) -> int {
        match self {
            Button::South => 0,
            Button::East => 1,
            Button::North => 2,
            Button::West => 3,
            Button::C => 4,
            Button::Z => 5,
            Button::LeftTrigger => 6,
            Button::LeftTrigger2 => 7,
            Button::RightTrigger => 8,
            Button::RightTrigger2 => 9,
            Button::Select => 10,
            Button::Start => 11,
            Button::Mode => 12,
            Button::LeftThumb => 13,
            Button::RightThumb => 14,
            Button::DPadUp => 15,
            Button::DPadDown => 16,
            Button::DPadLeft => 17,
            Button::DPadRight => 18,
            Button::Unknown => 19,
        }
    }

    /// Computes `spec_index`.
    pub fn index(self) -> (i: usize)
        ensures
            i == self.spec_index(),
            i < BUTTON_COUNT,
    {
        match self {
            Button::South => 0,
            Button::East => 1,
            Button::North => 2,
            Button::West => 3,
            Button::C => 4,
            Button::Z => 5,
            Button::LeftTrigger => 6,
            Button::LeftTrigger2 => 7,
            Button::RightTrigger => 8,
            Button::RightTrigger2 => 9,
            Button::Select => 10,
            Button::Start => 11,
            Button::Mode => 12,
            Button::LeftThumb => 13,
            Button::RightThumb => 14,
            Button::DPadUp => 15,
            Button::DPadDown => 16,
            Button::DPadLeft => 17,
            Button::DPadRight => 18,
            Button::Unknown => 19,
        }
    }

    /// The button at a place in the order of declaration.
    pub open spec fn spec_at(i: int) -> Button {
        if i == 0 {
            Button::South
        } else if i == 1 {
            Button::East
        } else if i == 2 {
            Button::North
        } else if i == 3 {
            Button::West
        } else if i == 4 {
            Button::C
        } else if i == 5 {
            Button::Z
        } else if i == 6 {
            Button::LeftTrigger
        } else if i == 7 {
            Button::LeftTrigger2
        } else if i == 8 {
            Button::RightTrigger
        } else if i == 9 {
            Button::RightTrigger2
        } else if i == 10 {
            Button::Select
        } else if i == 11 {
            Button::Start
        } else if i == 12 {
            Button::Mode
        } else if i == 13 {
            Button::LeftThumb
        } else if i == 14 {
            Button::RightThumb
        } else if i == 15 {
            Button::DPadUp
        } else if i == 16 {
            Button::DPadDown
        } else if i == 17 {
            Button::DPadLeft
        } else if i == 18 {
            Button::DPadRight
        } else {
            Button::Unknown
        }
    }

    /// Computes `spec_at`, the inverse of `index` on the places below
    /// `BUTTON_COUNT`.
    pub fn at(i: usize) -> (button: Button)
        ensures
            button == Button::spec_at(i as int),
            i < BUTTON_COUNT ==> button.spec_index() == i,
    {
        if i == 0 {
            Button::South
        } else if i == 1 {
            Button::East
        } else if i == 2 {
            Button::North
        } else if i == 3 {
            Button::West
        } else if i == 4 {
            Button::C
        } else if i == 5 {
            Button::Z
        } else if i == 6 {
            Button::LeftTrigger
        } else if i == 7 {
            Button::LeftTrigger2
        } else if i == 8 {
            Button::RightTrigger
        } else if i == 9 {
            Button::RightTrigger2
        } else if i == 10 {
            Button::Select
        } else if i == 11 {
            Button::Start
        } else if i == 12 {
            Button::Mode
        } else if i == 13 {
            Button::LeftThumb
        } else if i == 14 {
            Button::RightThumb
        } else if i == 15 {
            Button::DPadUp
        } else if i == 16 {
            Button::DPadDown
        } else if i == 17 {
            Button::DPadLeft
        } else if i == 18 {
            Button::DPadRight
        } else {
            Button::Unknown
        }
    }
}

/// The latest state of each button that has reported one: pressed or
/// released. The mapper does not read it; it is kept to be shown.
#[derive(Debug)]
pub struct ButtonSamples {
    slots: [Option<bool>; 20],
}

impl View for ButtonSamples {
    type V = Map<Button, bool>;

    closed spec fn view(&self) -> Map<Button, bool> {
        Map::new(
            |button: Button| self.slots@[button.spec_index()] is Some,
            |button: Button| self.slots@[button.spec_index()]->0,
        )
    }
}

impl ButtonSamples {
    /// A table without states.
    pub fn new() -> (samples: ButtonSamples)
        ensures
            samples@ == Map::<Button, bool>::empty(),
    {
        let samples = ButtonSamples { slots: [None; 20] };
        samples
    }

    /// Records the state of one button, in place of any earlier one.
    pub fn insert(&mut self, button: Button, pressed: bool)
        ensures
            final(self)@ == old(self)@.insert(button, pressed),
    {
        self.slots[button.index()] = Some(pressed);
    }

    /// The state of one button, if it has reported one.
    pub fn get(&self, button: Button) -> (sample: Option<bool>)
        ensures
            sample == (if self@.contains_key(button) {
                Some(self@[button])
            } else {
                None
            }),
    {
        self.slots[button.index()]
    }

    /// Whether no button has reported.
    pub fn is_empty(&self) -> (empty: bool)
        ensures
            empty == (self@ == Map::<Button, bool>::empty()),
    {
        let mut i: usize = 0;
        while i < BUTTON_COUNT
            invariant
                i <= BUTTON_COUNT,
                forall|j: int| 0 <= j < i ==> self.slots@[j] is None,
            decreases BUTTON_COUNT - i,
        {
            if self.slots[i].is_some() {
                assert(self@.contains_key(Button::spec_at(i as int)));
                return false;
            }
            i += 1;
        }
        assert(self@ =~= Map::<Button, bool>::empty());
        true
    }

    /// Whether `button` is recorded as pressed.
    pub open spec fn is_pressed(&self, button: Button) -> bool {
        self@.contains_key(button) && self@[button]
    }

    /// The buttons recorded as pressed, in the order in which the buttons
    /// are declared.
    pub fn pressed(&self) -> (list: Vec<Button>)
        ensures
            forall|k: int| 0 <= k < list@.len() ==> self.is_pressed(#[trigger] list@[k]),
            forall|button: Button|
                self.is_pressed(button) ==> exists|k: int|
                    0 <= k < list@.len() && #[trigger] list@[k] == button,
            forall|k: int, l: int|
                0 <= k < l < list@.len() ==> (#[trigger] list@[k]).spec_index() < (
                #[trigger] list@[l]).spec_index(),
    {
        let mut list: Vec<Button> = Vec::new();
        let mut i: usize = 0;
        while i < BUTTON_COUNT
            invariant
                i <= BUTTON_COUNT,
                forall|k: int|
                    0 <= k < list@.len() ==> self.is_pressed(#[trigger] list@[k])
                        && list@[k].spec_index() < i,
                forall|button: Button|
                    self.is_pressed(button) && button.spec_index() < i ==> exists|k: int|
                        0 <= k < list@.len() && #[trigger] list@[k] == button,
                forall|k: int, l: int|
                    0 <= k < l < list@.len() ==> (#[trigger] list@[k]).spec_index() < (
                    #[trigger] list@[l]).spec_index(),
            decreases BUTTON_COUNT - i,
        {
            let button = Button::at(i);
            let ghost before = list@;
            let held = match self.slots[i] {
                Some(state) => state,
                None => false,
            };
            if held {
                list.push(button);
                assert(list@[before.len() as int] == button);
            }
            assert forall|other: Button|
                self.is_pressed(other) && other.spec_index() < i + 1 implies exists|k: int|
                0 <= k < list@.len() && #[trigger] list@[k] == other by {
                if other.spec_index() < i {
                    let k = choose|k: int| 0 <= k < before.len() && #[trigger] before[k] == other;
                    assert(list@[k] == other);
                }
            }
            i += 1;
        }
        list
    }
}

} // verus!
