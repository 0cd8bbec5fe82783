//! The knobs of the simulation: for each of the three behaviours the range
//! within which it looks for neighbours and the strength with which it acts.
//!
//! A parameter has fixed bounds and a value that never leaves them. The
//! simulation only reads parameters; whoever owns the set may write them
//! between two ticks.

use vstd::prelude::*;

verus! {

/// The widest bound a parameter may have, on either side of zero.
pub const PARAMETER_LIMIT: i64 = 1_000_000_000;

/// What a parameter holds, in exact integers.
pub struct Setting {
    pub min: int,
    pub max: int,
    pub value: int,
}

impl Setting {
    /// Whether the bounds are in order and within the limit, and the value
    /// lies between them.
    pub open spec fn valid(self) -> bool {
        -PARAMETER_LIMIT <= self.min <= self.value <= self.max <= PARAMETER_LIMIT
    }

    /// The same bounds with `value` brought between them.
    pub open spec fn with_value(self, value: int) -> Setting {
        Setting { min: self.min, max: self.max, value: clamped(value, self.min, self.max) }
    }
}

/// `value` where it lies between `min` and `max`, else the bound it is
/// beyond.
pub open spec fn clamped(value: int, min: int, max: int) -> int {
    if value < min {
        min
    } else if value > max {
        max
    } else {
        value
    }
}

/// The middle between `min` and `max`, rounded toward `min`.
pub open spec fn midpoint(min: int, max: int) -> int {
    min + (max - min) / 2
}

/// Whether `min` and `max` can bound a parameter.
pub open spec fn bounds_are_valid(min: int, max: int) -> bool {
    -PARAMETER_LIMIT <= min <= max <= PARAMETER_LIMIT
}

/// A tunable number with fixed bounds.
#[derive(Clone, Copy, Debug)]
pub struct Parameter {
    min: i64,
    max: i64,
    value: i64,
}

impl View for Parameter {
    type V = Setting;

    closed spec fn view(&self) -> Setting {
        Setting { min: self.min as int, max: self.max as int, value: self.value as int }
    }
}

impl Parameter {
    /// What holds of every parameter: its setting is valid.
    #[verifier::type_invariant]
    pub closed spec fn well_formed(self) -> bool {
        self@.valid()
    }

    /// A parameter with the given bounds, its value in their middle; none
    /// where the bounds are out of order or beyond the limit.
    pub fn new(min: i64, max: i64) -> (parameter: Option<Parameter>)
        ensures
            parameter is Some <==> bounds_are_valid(min as int, max as int),
            parameter matches Some(p) ==> p@ == (Setting {
                min: min as int,
                max: max as int,
                value: midpoint(min as int, max as int),
            }),
    {
        if min > max || min < -PARAMETER_LIMIT || max > PARAMETER_LIMIT {
            return None;
        }
        let value: i64 = min + (max - min) / 2;
        Some(Parameter { min, max, value })
    }

    /// The lower bound.
    pub fn min(&self) -> (min: i64)
        ensures
            min == self@.min,
            self@.valid(),
    {
        proof {
            use_type_invariant(self);
        }
        self.min
    }

    /// The upper bound.
    pub fn max(&self) -> (max: i64)
        ensures
            max == self@.max,
            self@.valid(),
    {
        proof {
            use_type_invariant(self);
        }
        self.max
    }

    /// The current value.
    pub fn value(&self) -> (value: i64)
        ensures
            value == self@.value,
            self@.valid(),
    {
        proof {
            use_type_invariant(self);
        }
        self.value
    }

    /// Writes `value`, brought between the bounds first.
    pub fn set(&mut self, value: i64)
        ensures
            final(self)@ == old(self)@.with_value(value as int),
            final(self)@.value == clamped(value as int, old(self)@.min, old(self)@.max),
            final(self)@.valid(),
    {
        proof {
            use_type_invariant(&*self);
        }
        if value < self.min {
            self.value = self.min;
        } else if value > self.max {
            self.value = self.max;
        } else {
            self.value = value;
        }
    }
}

/// The six parameters by name.
#[derive(Clone, Copy, Debug, PartialEq, Eq, Structural)]
pub enum ParameterName {
    CoherenceRange,
    CoherenceStrength,
    SeparationRange,
    SeparationStrength,
    AlignmentRange,
    AlignmentStrength,
}

/// The bounds and the starting value that each parameter of the standard set
/// has.
pub open spec fn standard_setting(name: ParameterName) -> Setting {
    match name {
        ParameterName::CoherenceRange => Setting {
            min: 50_000_000,
            max: 150_000_000,
            value: 100_000_000,
        },
        ParameterName::CoherenceStrength => Setting { min: 1_000, max: 200_000, value: 100_500 },
        ParameterName::SeparationRange => Setting {
            min: 10_000_000,
            max: 100_000_000,
            value: 55_000_000,
        },
        ParameterName::SeparationStrength => Setting { min: 1_000, max: 200_000, value: 100_500 },
        ParameterName::AlignmentRange => Setting {
            min: 20_000_000,
            max: 150_000_000,
            value: 85_000_000,
        },
        ParameterName::AlignmentStrength => Setting { min: 1_000, max: 100_000, value: 50_500 },
    }
}

/// The six parameters of a simulation.
#[derive(Clone, Copy, Debug)]
pub struct ParameterSet {
    coherence_range: Parameter,
    coherence_strength: Parameter,
    separation_range: Parameter,
    separation_strength: Parameter,
    alignment_range: Parameter,
    alignment_strength: Parameter,
}

impl ParameterSet {
    /// What the parameter called `name` holds.
    pub closed spec fn setting(self, name: ParameterName) -> Setting {
        match name {
            ParameterName::CoherenceRange => self.coherence_range@,
            ParameterName::CoherenceStrength => self.coherence_strength@,
            ParameterName::SeparationRange => self.separation_range@,
            ParameterName::SeparationStrength => self.separation_strength@,
            ParameterName::AlignmentRange => self.alignment_range@,
            ParameterName::AlignmentStrength => self.alignment_strength@,
        }
    }

    /// The value of the parameter called `name`.
    pub open spec fn value_of(self, name: ParameterName) -> int {
        self.setting(name).value
    }

    /// The set made of the six given parameters.
    pub fn new(
        coherence_range: Parameter,
        coherence_strength: Parameter,
        separation_range: Parameter,
        separation_strength: Parameter,
        alignment_range: Parameter,
        alignment_strength: Parameter,
    ) -> (set: ParameterSet)
        ensures
            set.setting(ParameterName::CoherenceRange) == coherence_range@,
            set.setting(ParameterName::CoherenceStrength) == coherence_strength@,
            set.setting(ParameterName::SeparationRange) == separation_range@,
            set.setting(ParameterName::SeparationStrength) == separation_strength@,
            set.setting(ParameterName::AlignmentRange) == alignment_range@,
            set.setting(ParameterName::AlignmentStrength) == alignment_strength@,
    {
        ParameterSet {
            coherence_range,
            coherence_strength,
            separation_range,
            separation_strength,
            alignment_range,
            alignment_strength,
        }
    }

    /// The standard set: every parameter with its usual bounds, its value in
    /// their middle.
    pub fn standard() -> (set: ParameterSet)
        ensures
            forall|name: ParameterName| #[trigger] set.setting(name) == standard_setting(name),
    {
        ParameterSet {
            coherence_range: Parameter { min: 50_000_000, max: 150_000_000, value: 100_000_000 },
            coherence_strength: Parameter { min: 1_000, max: 200_000, value: 100_500 },
            separation_range: Parameter { min: 10_000_000, max: 100_000_000, value: 55_000_000 },
            separation_strength: Parameter { min: 1_000, max: 200_000, value: 100_500 },
            alignment_range: Parameter { min: 20_000_000, max: 150_000_000, value: 85_000_000 },
            alignment_strength: Parameter { min: 1_000, max: 100_000, value: 50_500 },
        }
    }

    /// The parameter called `name`, with its bounds.
    pub fn parameter(&self, name: ParameterName) -> (parameter: Parameter)
        ensures
            parameter@ == self.setting(name),
            parameter@.valid(),
    {
        let parameter = match name {
            ParameterName::CoherenceRange => self.coherence_range,
            ParameterName::CoherenceStrength => self.coherence_strength,
            ParameterName::SeparationRange => self.separation_range,
            ParameterName::SeparationStrength => self.separation_strength,
            ParameterName::AlignmentRange => self.alignment_range,
            ParameterName::AlignmentStrength => self.alignment_strength,
        };
        proof {
            use_type_invariant(&parameter);
        }
        parameter
    }

    /// The value of the parameter called `name`.
    pub fn get(&self, name: ParameterName) -> (value: i64)
        ensures
            value == self.value_of(name),
            self.setting(name).valid(),
    {
        self.parameter(name).value()
    }

    /// Writes `value` to the parameter called `name`, brought between its
    /// bounds first. The other parameters stay as they are.
    pub fn set(&mut self, name: ParameterName, value: i64)
        ensures
            final(self).setting(name) == old(self).setting(name).with_value(value as int),
            final(self).value_of(name) == clamped(
                value as int,
                old(self).setting(name).min,
                old(self).setting(name).max,
            ),
            forall|other: ParameterName|
                other != name ==> #[trigger] final(self).setting(other) == old(self).setting(other),
    {
        match name {
            ParameterName::CoherenceRange => self.coherence_range.set(value),
            ParameterName::CoherenceStrength => self.coherence_strength.set(value),
            ParameterName::SeparationRange => self.separation_range.set(value),
            ParameterName::SeparationStrength => self.separation_strength.set(value),
            ParameterName::AlignmentRange => self.alignment_range.set(value),
            ParameterName::AlignmentStrength => self.alignment_strength.set(value),
        }
    }
}

} // verus!
