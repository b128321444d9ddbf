//! Input and output samples of the pipeline, and its error kinds.

use vstd::prelude::*;
use crate::fixed::{FP, TIME_MAX, COORD_MAX, LIM};

verus! {

/// Phase of a pointer event within a stroke.
#[derive(Debug, Clone, Copy, PartialEq, Eq, Structural, Hash)]
#[allow(non_camel_case_types)]
pub enum ModelerInputEventType {
    kDown,
    kMove,
    kUp,
}

/// Why a call was rejected.  All three conditions are local and recoverable:
/// the modeler is left exactly as it was.
#[derive(Debug, Clone, Copy, PartialEq, Eq, Structural, Hash)]
pub enum ModelerError {
    /// Construction or reset was handed parameters that fail validation.
    InvalidParams,
    /// An input's time stamp was earlier than the stroke's last recorded time.
    NonMonotonicTime,
    /// A `Move` or `Up` event arrived while no stroke was in progress.
    InvalidStateTransition,
}

/// One raw observation, in fixed-point ticks: position and time, plus
/// normalized pressure in `[0, FP]` and tilt / orientation angles.
#[derive(Debug, Clone, Copy, PartialEq, Eq)]
pub struct ModelerInput {
    pub event_type: ModelerInputEventType,
    pub pos: (i64, i64),
    pub time: i64,
    pub pressure: i64,
    pub tilt: i64,
    pub orientation: i64,
}

impl ModelerInput {
    /// Bounds under which every computation on this input stays in range.
    pub open spec fn wf(self) -> bool {
        &&& 0 <= self.time <= TIME_MAX
        &&& -COORD_MAX <= self.pos.0 <= COORD_MAX
        &&& -COORD_MAX <= self.pos.1 <= COORD_MAX
        &&& 0 <= self.pressure <= FP
        &&& -COORD_MAX <= self.tilt <= COORD_MAX
        &&& -COORD_MAX <= self.orientation <= COORD_MAX
    }

    pub fn new(
        event_type: ModelerInputEventType,
        pos: (i64, i64),
        time: i64,
        pressure: i64,
        tilt: i64,
        orientation: i64,
    ) -> (r: ModelerInput)
        requires
            0 <= time <= TIME_MAX,
            -COORD_MAX <= pos.0 <= COORD_MAX,
            -COORD_MAX <= pos.1 <= COORD_MAX,
            0 <= pressure <= FP,
            -COORD_MAX <= tilt <= COORD_MAX,
            -COORD_MAX <= orientation <= COORD_MAX,
        ensures
            r == (ModelerInput { event_type, pos, time, pressure, tilt, orientation }),
            r.wf(),
    {
        ModelerInput { event_type, pos, time, pressure, tilt, orientation }
    }

    pub fn get_event_type(&self) -> (r: ModelerInputEventType)
        ensures
            r == self.event_type,
    {
        self.event_type
    }

    pub fn get_pos(&self) -> (r: (i64, i64))
        ensures
            r == self.pos,
    {
        self.pos
    }

    pub fn get_time(&self) -> (r: i64)
        ensures
            r == self.time,
    {
        self.time
    }

    pub fn get_pressure(&self) -> (r: i64)
        ensures
            r == self.pressure,
    {
        self.pressure
    }

    pub fn get_tilt(&self) -> (r: i64)
        ensures
            r == self.tilt,
    {
        self.tilt
    }

    pub fn get_orientation(&self) -> (r: i64)
        ensures
            r == self.orientation,
    {
        self.orientation
    }
}

/// One modeled output sample: a point of the smoothed trajectory together
/// with its velocity and the interpolated stylus state.
#[derive(Debug, Clone, Copy, PartialEq, Eq)]
pub struct ModelerResult {
    pub pos: (i64, i64),
    pub velocity: (i64, i64),
    pub time: i64,
    pub pressure: i64,
    pub tilt: i64,
    pub orientation: i64,
}

impl ModelerResult {
    /// Every emitted sample stays inside the saturation band.
    pub open spec fn wf(self) -> bool {
        &&& 0 <= self.time <= LIM
        &&& -LIM <= self.pos.0 <= LIM
        &&& -LIM <= self.pos.1 <= LIM
        &&& -LIM <= self.velocity.0 <= LIM
        &&& -LIM <= self.velocity.1 <= LIM
        &&& 0 <= self.pressure <= FP
        &&& -COORD_MAX <= self.tilt <= COORD_MAX
        &&& -COORD_MAX <= self.orientation <= COORD_MAX
    }

    pub fn get_pos(&self) -> (r: (i64, i64))
        ensures
            r == self.pos,
    {
        self.pos
    }

    pub fn get_velocity(&self) -> (r: (i64, i64))
        ensures
            r == self.velocity,
    {
        self.velocity
    }

    pub fn get_time(&self) -> (r: i64)
        ensures
            r == self.time,
    {
        self.time
    }

    pub fn get_pressure(&self) -> (r: i64)
        ensures
            r == self.pressure,
    {
        self.pressure
    }

    pub fn get_tilt(&self) -> (r: i64)
        ensures
            r == self.tilt,
    {
        self.tilt
    }

    pub fn get_orientation(&self) -> (r: i64)
        ensures
            r == self.orientation,
    {
        self.orientation
    }
}

} // verus!
