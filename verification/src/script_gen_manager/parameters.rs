//! Integer and selection parameters of a sweep, and the fixed parameter sets.
use vstd::prelude::*;

use crate::script_gen_manager::metadata::{RATE_FAST, RATE_NORMAL};
use crate::text::owned;

verus! {

/// An integer parameter.
#[derive(Debug)]
pub struct ParameterInt {
    pub id: String,
    pub value: i32,
}

/// A selection (drop-down) parameter: its value and the values it may take.
#[derive(Debug)]
pub struct ParameterString {
    pub id: String,
    pub value: String,
    pub range: Vec<String>,
}

/// `value` brought into `[min, max]`: below `min` it becomes `min`, above
/// `max` it becomes `max` (`min` wins when the bounds are crossed).
pub open spec fn limited(value: int, min: int, max: int) -> int {
    if value >= min && value <= max {
        value
    } else if value < min {
        min
    } else {
        max
    }
}

impl ParameterInt {
    /// Creates an integer parameter.
    pub fn new(id: &str, value: i32) -> (r: Self)
        ensures
            r.id@ == id@,
            r.value == value,
    {
        ParameterInt { id: owned(id), value }
    }

    /// Brings the value into `[min, max]` (see [`limited`]).
    pub fn limit(&mut self, min: i32, max: i32)
        ensures
            final(self).value == limited(old(self).value as int, min as int, max as int),
            final(self).id == old(self).id,
    {
        if self.value >= min && self.value <= max {
            return ;
        } else if self.value < min {
            self.value = min;
        } else {
            self.value = max;
        }
    }
}

impl ParameterString {
    /// Creates a selection parameter with no value and no choices.
    pub fn new(id: &str) -> (r: Self)
        ensures
            r.id@ == id@,
            r.value@ == Seq::<char>::empty(),
            r.range@.len() == 0,
    {
        ParameterString { id: owned(id), value: String::new(), range: Vec::new() }
    }
}

/// The global parameters of the sweep channels.
#[derive(Debug)]
pub struct SweepGlobalParameters {
    pub sweep_points: ParameterInt,
    pub list_sweep: bool,
}

impl SweepGlobalParameters {
    /// Ten sweep points, no list sweep.
    pub fn new() -> (r: Self)
        ensures
            r.sweep_points.id@ == "sweep_points"@,
            r.sweep_points.value == 10,
            !r.list_sweep,
    {
        SweepGlobalParameters { sweep_points: ParameterInt::new("sweep_points", 10), list_sweep: false }
    }
}

/// The timing of a power supply: its measurement rate.
#[derive(Debug)]
pub struct PsuTiming {
    pub rate: ParameterString,
}

impl PsuTiming {
    /// A timing with the default rate.
    pub fn new() -> (r: Self)
        ensures
            r.rate.id@ == "rate"@,
            r.rate.value@ == RATE_NORMAL@,
            r.rate.range@.len() == 2,
            r.rate.range@[0]@ == RATE_NORMAL@,
            r.rate.range@[1]@ == RATE_FAST@,
    {
        let mut psu_timing = PsuTiming { rate: ParameterString::new("rate") };
        psu_timing.set_defaults();
        psu_timing
    }

    /// The rate may be normal or fast; it is normal.
    pub fn set_defaults(&mut self)
        ensures
            final(self).rate.id == old(self).rate.id,
            final(self).rate.value@ == RATE_NORMAL@,
            final(self).rate.range@.len() == 2,
            final(self).rate.range@[0]@ == RATE_NORMAL@,
            final(self).rate.range@[1]@ == RATE_FAST@,
    {
        let mut range: Vec<String> = Vec::new();
        range.push(owned(RATE_NORMAL));
        range.push(owned(RATE_FAST));
        self.rate.range = range;
        self.rate.value = owned(RATE_NORMAL);
    }

    /// Checks the timing; a power supply's rate needs no correction.
    pub fn evaluate(&mut self)
        ensures
            final(self).rate.id == old(self).rate.id,
            final(self).rate.value == old(self).rate.value,
            final(self).rate.range == old(self).rate.range,
    {
    }
}

} // verus!
