use vstd::prelude::*;

verus! {

/// The actuator flag set: pump running, valve open. Each flag is set and
/// cleared independently; on the wire the set is one byte with bit 0 for the
/// pump and bit 1 for the valve, and no other bit.
#[derive(Debug, Clone, Copy, PartialEq, Eq, Structural)]
pub struct StatusFlags {
    pub pump_on: bool,
    pub valve_open: bool,
}

/// The byte that stands for a flag set.
pub open spec fn flag_bits(f: StatusFlags) -> u8 {
    ((if f.pump_on { 1u8 } else { 0u8 }) + (if f.valve_open { 2u8 } else { 0u8 })) as u8
}

/// The flag set that a byte stands for, if it holds no undefined bit.
pub open spec fn flags_from_bits(b: u8) -> Option<StatusFlags> {
    if b < 4 {
        Some(StatusFlags { pump_on: b % 2 == 1, valve_open: b / 2 == 1 })
    } else {
        None
    }
}

impl StatusFlags {
    /// The set that holds the pump flag alone.
    pub fn pump() -> (r: StatusFlags)
        ensures
            r.pump_on,
            !r.valve_open,
    {
        StatusFlags { pump_on: true, valve_open: false }
    }

    /// The set that holds the valve flag alone.
    pub fn valve() -> (r: StatusFlags)
        ensures
            !r.pump_on,
            r.valve_open,
    {
        StatusFlags { pump_on: false, valve_open: true }
    }

    pub open spec fn empty_spec() -> StatusFlags {
        StatusFlags { pump_on: false, valve_open: false }
    }

    /// No flag set.
    pub fn empty() -> (r: StatusFlags)
        ensures
            r == StatusFlags::empty_spec(),
    {
        StatusFlags { pump_on: false, valve_open: false }
    }

    /// Both flags set.
    pub fn all() -> (r: StatusFlags)
        ensures
            r.pump_on,
            r.valve_open,
    {
        StatusFlags { pump_on: true, valve_open: true }
    }

    /// True when no flag is set.
    pub fn is_empty(&self) -> (r: bool)
        ensures
            r == (!self.pump_on && !self.valve_open),
    {
        !self.pump_on && !self.valve_open
    }

    /// True when every flag of `other` is set in `self`.
    pub fn contains(&self, other: StatusFlags) -> (r: bool)
        ensures
            r == ((other.pump_on ==> self.pump_on) && (other.valve_open ==> self.valve_open)),
    {
        (!other.pump_on || self.pump_on) && (!other.valve_open || self.valve_open)
    }

    /// Sets every flag of `other` to `value`, leaving the others as they were.
    pub fn set(&mut self, other: StatusFlags, value: bool)
        ensures
            final(self).pump_on == (if other.pump_on { value } else { old(self).pump_on }),
            final(self).valve_open == (if other.valve_open { value } else { old(self).valve_open }),
    {
        if other.pump_on {
            self.pump_on = value;
        }
        if other.valve_open {
            self.valve_open = value;
        }
    }

    /// The byte that stands for this set.
    pub fn bits(&self) -> (r: u8)
        ensures
            r == flag_bits(*self),
            r < 4,
    {
        let p: u8 = if self.pump_on { 1 } else { 0 };
        let v: u8 = if self.valve_open { 2 } else { 0 };
        p + v
    }

    /// The set that `b` stands for; `None` when `b` holds a bit that is no flag.
    pub fn from_bits(b: u8) -> (r: Option<StatusFlags>)
        ensures
            r == flags_from_bits(b),
    {
        if b < 4 {
            Some(StatusFlags { pump_on: b % 2 == 1, valve_open: b / 2 == 1 })
        } else {
            None
        }
    }
}

/// Decoding the byte of a flag set gives the set back.
pub proof fn lemma_flag_bits_round_trip(f: StatusFlags)
    ensures
        flag_bits(f) < 4,
        flags_from_bits(flag_bits(f)) == Some(f),
{
}

/// The field unit's actual actuator state.
#[derive(Debug, Clone, Copy, PartialEq, Eq, Structural)]
pub struct DeviceStatus {
    pub flags: StatusFlags,
}

} // verus!
