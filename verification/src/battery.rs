//! Battery readings: the value types handed to the user interface and the
//! decoding of a Battery Level characteristic value.

use vstd::prelude::*;

verus! {

/// A peripheral as listed for the user: its display name and its
/// platform-assigned identifier.
#[derive(Clone, Debug, PartialEq, Eq)]
pub struct BleDeviceInfo {
    pub name: String,
    pub id: String,
}

/// One battery reading: the level, absent when the characteristic could not be
/// read or carried no byte, and the label of the characteristic, if any.
#[derive(Clone, Debug, PartialEq, Eq)]
pub struct BatteryInfo {
    pub battery_level: Option<u8>,
    pub user_descriptor: Option<String>,
}

/// The level that a raw characteristic value carries: its first byte, or
/// nothing when the value is empty.
pub open spec fn level_of(value: Seq<u8>) -> Option<u8> {
    if value.len() == 0 {
        None
    } else {
        Some(value[0])
    }
}

/// Decodes the battery level from a raw characteristic value.
pub fn parse_level(value: &[u8]) -> (level: Option<u8>)
    ensures
        level == level_of(value@),
{
    if value.len() == 0 {
        None
    } else {
        Some(value[0])
    }
}

} // verus!
