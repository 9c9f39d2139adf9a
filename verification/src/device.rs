//! Reading the user's choice among the listed output devices.

use vstd::prelude::*;
use crate::numeral::{read_usize, usize_of};
use crate::text::{to_chars, trim_bounds, trimmed};

verus! {

/// What a line typed at the device prompt amounts to.
#[derive(Clone, Copy, Debug, PartialEq, Eq, Structural)]
pub enum DeviceChoice {
    /// The device at this index of the listing was chosen.
    Selected(usize),
    /// The line is a number, but no device has that index: ask again.
    InvalidIndex,
    /// The line is no number: ask again.
    InvalidInput,
}

/// The choice that the line `input` makes among `device_count` devices.
pub open spec fn choice_of(input: Seq<char>, device_count: usize) -> DeviceChoice {
    match usize_of(trimmed(input)) {
        Some(i) => if i < device_count {
            DeviceChoice::Selected(i)
        } else {
            DeviceChoice::InvalidIndex
        },
        None => DeviceChoice::InvalidInput,
    }
}

/// Reads the line `input`, typed at the prompt, as the index of one of
/// `device_count` devices. Whitespace around the number, the line break
/// included, is ignored.
pub fn choose_device(input: &str, device_count: usize) -> (r: DeviceChoice)
    ensures
        r == choice_of(input@, device_count),
{
    let chars = to_chars(input);
    let (lo, hi) = trim_bounds(&chars, 0, chars.len());
    assert(chars@.subrange(0, chars@.len() as int) =~= chars@);
    match read_usize(&chars, lo, hi) {
        Some(i) => if i < device_count {
            DeviceChoice::Selected(i)
        } else {
            DeviceChoice::InvalidIndex
        },
        None => DeviceChoice::InvalidInput,
    }
}

} // verus!
