//! Input axes: their names, and the table of their latest samples.

use vstd::prelude::*;
use vstd::string::StringSliceAdditionalSpecFns;
use vstd::utf8::encode_utf8_decode_utf8;

verus! {

/// An analogue input of a controller.
#[derive(Clone, Copy, Debug, PartialEq, Eq, Hash, Structural)]
pub enum Axis {
    LeftStickX,
    LeftStickY,
    LeftZ,
    RightStickX,
    RightStickY,
    RightZ,
    DPadX,
    DPadY,
    /// An input the device reports that is none of the above.
    Unknown,
}

/// The number of axes.
pub const AXIS_COUNT: usize = 9;

/// A fallback axis counts only when its sample is larger in magnitude than
/// this: a hundredth of full deflection.
pub const SIGNIFICANCE: i64 = 10_000;

/// A sample larger in magnitude than this shows an axis in use: a tenth of
/// full deflection.
pub const ACTIVE: i64 = 100_000;

/// `value` is more than `SIGNIFICANCE` away from zero.
pub open spec fn significant(value: int) -> bool {
    value > SIGNIFICANCE || value < -SIGNIFICANCE
}

/// How far an axis is from rest, as shown to a user.
#[derive(Clone, Copy, Debug, PartialEq, Eq, Structural)]
pub enum Activity {
    /// More than `ACTIVE` away from zero.
    Active,
    /// Significant, but not active.
    Slight,
    /// At rest, or too close to it to count.
    Idle,
}

/// The activity that a sample shows.
pub open spec fn spec_activity(value: int) -> Activity {
    if value > ACTIVE || value < -ACTIVE {
        Activity::Active
    } else if significant(value) {
        Activity::Slight
    } else {
        Activity::Idle
    }
}

/// Computes `spec_activity`.
pub fn activity(value: i64) -> (a: Activity)
    ensures
        a == spec_activity(value as int),
{
    if value > ACTIVE || value < -ACTIVE {
        Activity::Active
    } else if value > SIGNIFICANCE || value < -SIGNIFICANCE {
        Activity::Slight
    } else {
        Activity::Idle
    }
}

impl Axis {
    /// The place of the axis in the order of declaration.
    pub open spec fn spec_index(self) -> int {
        match self {
            Axis::LeftStickX => 0,
            Axis::LeftStickY => 1,
            Axis::LeftZ => 2,
            Axis::RightStickX => 3,
            Axis::RightStickY => 4,
            Axis::RightZ => 5,
            Axis::DPadX => 6,
            Axis::DPadY => 7,
            Axis::Unknown => 8,
        }
    }

    /// Computes `spec_index`.
    pub fn index(self) -> (i: usize)
        ensures
            i == self.spec_index(),
            i < AXIS_COUNT,
    {
        match self {
            Axis::LeftStickX => 0,
            Axis::LeftStickY => 1,
            Axis::LeftZ => 2,
            Axis::RightStickX => 3,
            Axis::RightStickY => 4,
            Axis::RightZ => 5,
            Axis::DPadX => 6,
            Axis::DPadY => 7,
            Axis::Unknown => 8,
        }
    }

    /// The axis at a place in the order of declaration.
    pub open spec fn spec_at(i: int) -> Axis {
        if i == 0 {
            Axis::LeftStickX
        } else if i == 1 {
            Axis::LeftStickY
        } else if i == 2 {
            Axis::LeftZ
        } else if i == 3 {
            Axis::RightStickX
        } else if i == 4 {
            Axis::RightStickY
        } else if i == 5 {
            Axis::RightZ
        } else if i == 6 {
            Axis::DPadX
        } else if i == 7 {
            Axis::DPadY
        } else {
            Axis::Unknown
        }
    }

    /// Computes `spec_at`, the inverse of `index` on the places below
    /// `AXIS_COUNT`.
    pub fn at(i: usize) -> (axis: Axis)
        ensures
            axis == Axis::spec_at(i as int),
            i < AXIS_COUNT ==> axis.spec_index() == i,
    {
        if i == 0 {
            Axis::LeftStickX
        } else if i == 1 {
            Axis::LeftStickY
        } else if i == 2 {
            Axis::LeftZ
        } else if i == 3 {
            Axis::RightStickX
        } else if i == 4 {
            Axis::RightStickY
        } else if i == 5 {
            Axis::RightZ
        } else if i == 6 {
            Axis::DPadX
        } else if i == 7 {
            Axis::DPadY
        } else {
            Axis::Unknown
        }
    }
}

/// Whether two strings hold the same characters.
pub fn same_text(a: &str, b: &str) -> (same: bool)
    ensures
        same == (a@ == b@),
{
    let x = a.as_bytes();
    let y = b.as_bytes();
    proof {
        encode_utf8_decode_utf8(a@);
        encode_utf8_decode_utf8(b@);
    }
    if x.len() != y.len() {
        return false;
    }
    let mut i: usize = 0;
    while i < x.len()
        invariant
            x@ == a.spec_bytes(),
            y@ == b.spec_bytes(),
            x@.len() == y@.len(),
            i <= x@.len(),
            forall|j: int| 0 <= j < i ==> x@[j] == y@[j],
        decreases x.len() - i,
    {
        if x[i] != y[i] {
            return false;
        }
        i += 1;
    }
    assert(x@ =~= y@);
    true
}

/// The axis that a configuration file calls `name`, if it names one.
pub open spec fn spec_parse_axis_name(name: Seq<char>) -> Option<Axis> {
    if name == "LeftStickX"@ {
        Some(Axis::LeftStickX)
    } else if name == "LeftStickY"@ {
        Some(Axis::LeftStickY)
    } else if name == "LeftZ"@ {
        Some(Axis::LeftZ)
    } else if name == "RightStickX"@ {
        Some(Axis::RightStickX)
    } else if name == "RightStickY"@ {
        Some(Axis::RightStickY)
    } else if name == "RightZ"@ {
        Some(Axis::RightZ)
    } else if name == "DPadX"@ {
        Some(Axis::DPadX)
    } else if name == "DPadY"@ {
        Some(Axis::DPadY)
    } else {
        None
    }
}

/// Each of the eight names resolves to the axis it names.
pub proof fn lemma_axis_names_resolve()
    ensures
        spec_parse_axis_name("LeftStickX"@) == Some(Axis::LeftStickX),
        spec_parse_axis_name("LeftStickY"@) == Some(Axis::LeftStickY),
        spec_parse_axis_name("LeftZ"@) == Some(Axis::LeftZ),
        spec_parse_axis_name("RightStickX"@) == Some(Axis::RightStickX),
        spec_parse_axis_name("RightStickY"@) == Some(Axis::RightStickY),
        spec_parse_axis_name("RightZ"@) == Some(Axis::RightZ),
        spec_parse_axis_name("DPadX"@) == Some(Axis::DPadX),
        spec_parse_axis_name("DPadY"@) == Some(Axis::DPadY),
{
    reveal_strlit("LeftStickX");
    reveal_strlit("LeftStickY");
    reveal_strlit("LeftZ");
    reveal_strlit("RightStickX");
    reveal_strlit("RightStickY");
    reveal_strlit("RightZ");
    reveal_strlit("DPadX");
    reveal_strlit("DPadY");
    assert("LeftZ"@.len() == 5 && "RightZ"@.len() == 6);
    assert("LeftStickY"@[9] != "LeftStickX"@[9]);
    assert("RightStickY"@[10] != "RightStickX"@[10]);
    assert("DPadY"@[4] != "DPadX"@[4]);
}

/// Resolves an axis name. A name that is not known resolves to nothing,
/// which the mapper treats like an axis without a sample.
pub fn parse_axis_name(name: &str) -> (axis: Option<Axis>)
    ensures
        axis == spec_parse_axis_name(name@),
{
    if same_text(name, "LeftStickX") {
        Some(Axis::LeftStickX)
    } else if same_text(name, "LeftStickY") {
        Some(Axis::LeftStickY)
    } else if same_text(name, "LeftZ") {
        Some(Axis::LeftZ)
    } else if same_text(name, "RightStickX") {
        Some(Axis::RightStickX)
    } else if same_text(name, "RightStickY") {
        Some(Axis::RightStickY)
    } else if same_text(name, "RightZ") {
        Some(Axis::RightZ)
    } else if same_text(name, "DPadX") {
        Some(Axis::DPadX)
    } else if same_text(name, "DPadY") {
        Some(Axis::DPadY)
    } else {
        None
    }
}

/// The latest sample of each axis that has reported one, in millionths of
/// full deflection.
#[derive(Debug)]
pub struct AxisSamples {
    slots: [Option<i64>; 9],
}

impl View for AxisSamples {
    type V = Map<Axis, i64>;

    closed spec fn view(&self) -> Map<Axis, i64> {
        Map::new(
            |axis: Axis| self.slots@[axis.spec_index()] is Some,
            |axis: Axis| self.slots@[axis.spec_index()]->0,
        )
    }
}

impl AxisSamples {
    /// A table without samples.
    pub fn new() -> (samples: AxisSamples)
        ensures
            samples@ == Map::<Axis, i64>::empty(),
    {
        let samples = AxisSamples { slots: [None; 9] };
        samples
    }

    /// Records the sample of one axis, in place of any earlier one.
    pub fn insert(&mut self, axis: Axis, value: i64)
        ensures
            final(self)@ == old(self)@.insert(axis, value),
    {
        self.slots[axis.index()] = Some(value);
    }

    /// The sample of one axis, if it has reported one.
    pub fn get(&self, axis: Axis) -> (sample: Option<i64>)
        ensures
            sample == (if self@.contains_key(axis) {
                Some(self@[axis])
            } else {
                None
            }),
    {
        self.slots[axis.index()]
    }

    /// The axes that have reported, each with its sample, in the order in
    /// which the axes are declared.
    pub fn entries(&self) -> (list: Vec<(Axis, i64)>)
        ensures
            forall|k: int|
                0 <= k < list@.len() ==> self@.contains_key((#[trigger] list@[k]).0) && self@[list@[k].0]
                    == list@[k].1,
            forall|axis: Axis|
                self@.contains_key(axis) ==> exists|k: int|
                    0 <= k < list@.len() && (#[trigger] list@[k]).0 == axis,
            forall|k: int, l: int|
                0 <= k < l < list@.len() ==> (#[trigger] list@[k]).0.spec_index() < (
                #[trigger] list@[l]).0.spec_index(),
    {
        let mut list: Vec<(Axis, i64)> = Vec::new();
        let mut i: usize = 0;
        while i < AXIS_COUNT
            invariant
                i <= AXIS_COUNT,
                forall|k: int|
                    0 <= k < list@.len() ==> self@.contains_key((#[trigger] list@[k]).0)
                        && self@[list@[k].0] == list@[k].1 && list@[k].0.spec_index() < i,
                forall|axis: Axis|
                    self@.contains_key(axis) && axis.spec_index() < i ==> exists|k: int|
                        0 <= k < list@.len() && (#[trigger] list@[k]).0 == axis,
                forall|k: int, l: int|
                    0 <= k < l < list@.len() ==> (#[trigger] list@[k]).0.spec_index() < (
                    #[trigger] list@[l]).0.spec_index(),
            decreases AXIS_COUNT - i,
        {
            let axis = Axis::at(i);
            let ghost before = list@;
            match self.slots[i] {
                Some(value) => {
                    list.push((axis, value));
                    assert(list@[before.len() as int].0 == axis);
                    assert forall|other: Axis|
                        self@.contains_key(other) && other.spec_index() < i + 1 implies exists|
                        k: int,
                    | 0 <= k < list@.len() && (#[trigger] list@[k]).0 == other by {
                        if other.spec_index() < i {
                            let k = choose|k: int|
                                0 <= k < before.len() && (#[trigger] before[k]).0 == other;
                            assert(list@[k].0 == other);
                        }
                    }
                },
                None => {},
            }
            i += 1;
        }
        list
    }
}

} // verus!
