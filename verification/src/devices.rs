//! The devices that the adapter reports: which of them are listed for the
//! user, and where one of them is found by its id.

use crate::battery::BleDeviceInfo;
use vstd::prelude::*;

verus! {

/// A device as the adapter reported it: its id, and its name where the
/// adapter could give one.
#[derive(Clone, Debug, PartialEq, Eq)]
pub struct DeviceEntry {
    pub name: Option<String>,
    pub id: String,
}

/// Why a device cannot be addressed.
#[derive(Clone, Copy, Debug, PartialEq, Eq, Structural)]
pub enum CommandError {
    /// No connected device has the id that was asked for.
    DeviceNotFound,
}

impl CommandError {
    /// The text shown to the user.
    pub fn message(&self) -> (text: String)
        ensures
            text@ == "Device not found"@,
    {
        "Device not found".to_string()
    }
}

/// The devices of `entries` that have a name, in their order.
pub open spec fn named(entries: Seq<DeviceEntry>) -> Seq<BleDeviceInfo>
    decreases entries.len(),
{
    if entries.len() == 0 {
        Seq::empty()
    } else {
        let front = named(entries.drop_last());
        match entries.last().name {
            Some(name) => front.push(BleDeviceInfo { name, id: entries.last().id }),
            None => front,
        }
    }
}

/// The position of the first of `ids` that equals `id`.
pub open spec fn position_of(ids: Seq<String>, id: Seq<char>) -> Option<int>
    decreases ids.len(),
{
    if ids.len() == 0 {
        None
    } else {
        match position_of(ids.drop_last(), id) {
            Some(i) => Some(i),
            None => if ids.last()@ == id {
                Some(ids.len() - 1)
            } else {
                None
            },
        }
    }
}

/// Lists the devices for the user: those whose name the adapter could give,
/// in the order in which it reported them.
pub fn list_devices(entries: &Vec<DeviceEntry>) -> (devices: Vec<BleDeviceInfo>)
    ensures
        devices@ == named(entries@),
{
    let mut devices: Vec<BleDeviceInfo> = Vec::new();
    let mut i: usize = 0;
    while i < entries.len()
        invariant
            i <= entries.len(),
            devices@ == named(entries@.take(i as int)),
        decreases entries.len() - i,
    {
        proof {
            assert(entries@.take(i + 1).drop_last() == entries@.take(i as int));
        }
        match &entries[i].name {
            Some(name) => {
                devices.push(BleDeviceInfo { name: name.clone(), id: entries[i].id.clone() });
            },
            None => {},
        }
        i += 1;
    }
    proof {
        assert(entries@.take(i as int) == entries@);
    }
    devices
}

/// Finds the device with the id `id` among the ids of the connected
/// devices: the position of the first that equals it.
pub fn find_device(ids: &Vec<String>, id: &String) -> (found: Result<usize, CommandError>)
    ensures
        match found {
            Ok(i) => i < ids.len() && position_of(ids@, id@) == Some(i as int),
            Err(error) => error == CommandError::DeviceNotFound && position_of(ids@, id@) is None,
        },
{
    let mut i: usize = 0;
    while i < ids.len()
        invariant
            i <= ids.len(),
            position_of(ids@.take(i as int), id@) is None,
        decreases ids.len() - i,
    {
        proof {
            assert(ids@.take(i + 1).drop_last() == ids@.take(i as int));
        }
        if ids[i] == *id {
            proof {
                lemma_position_stays(ids@, id@, i + 1);
            }
            return Ok(i);
        }
        i += 1;
    }
    proof {
        assert(ids@.take(i as int) == ids@);
    }
    Err(CommandError::DeviceNotFound)
}

/// An id found in a front part of the ids is found at the same place among
/// them all.
pub proof fn lemma_position_stays(ids: Seq<String>, id: Seq<char>, front: int)
    requires
        0 <= front <= ids.len(),
        position_of(ids.take(front), id) is Some,
    ensures
        position_of(ids, id) == position_of(ids.take(front), id),
    decreases ids.len() - front,
{
    if front < ids.len() {
        assert(ids.take(front + 1).drop_last() == ids.take(front));
        lemma_position_stays(ids, id, front + 1);
    } else {
        assert(ids.take(front) == ids);
    }
}

/// Where an id is found, it stands, and it stands nowhere before; where it
/// is not found, it stands nowhere.
pub proof fn lemma_position_of(ids: Seq<String>, id: Seq<char>)
    ensures
        match position_of(ids, id) {
            Some(i) => 0 <= i < ids.len() && ids[i]@ == id && forall|j: int|
                0 <= j < i ==> ids[j]@ != id,
            None => forall|j: int| 0 <= j < ids.len() ==> ids[j]@ != id,
        },
    decreases ids.len(),
{
    if ids.len() > 0 {
        let front = ids.drop_last();
        lemma_position_of(front, id);
        assert forall|j: int| 0 <= j < front.len() implies front[j] == ids[j] by {}
    }
}

} // verus!
