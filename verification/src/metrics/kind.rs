//! The kinds of a measurement, as bits of a mask: a measurement carries one
//! kind or several together.

use vstd::prelude::*;

verus! {

/// A set of measurement kinds, one bit for each.
pub type Kind = u16;

pub const COUNTER: Kind = 1;

pub const GAUGE: Kind = 2;

pub const METER: Kind = 4;

pub const HISTOGRAM: Kind = 8;

pub const TIMER: Kind = 16;

pub const SET: Kind = 32;

pub const SET_UNIQUES: Kind = 64;

pub const PERCENTILE: Kind = 128;

} // verus!
