//! Resolution of a configured device name to a backend device index.

use vstd::prelude::*;

verus! {

/// Resolves a device name against the ordered list of device names that the
/// capture backend enumerated.  An exact match at the earliest position wins;
/// an unrecognized name falls back, silently and by design, to index 0, the
/// first enumerated device.
pub fn get_device_id(device_name: &String, devices: &Vec<String>) -> (id: usize)
    ensures
        (forall|j: int| 0 <= j < devices@.len() ==> devices@[j]@ != device_name@) ==> id == 0,
        (exists|j: int| 0 <= j < devices@.len() && devices@[j]@ == device_name@) ==> {
            &&& id < devices@.len()
            &&& devices@[id as int]@ == device_name@
            &&& forall|j: int| 0 <= j < id ==> devices@[j]@ != device_name@
        },
{
    let n = devices.len();
    let mut i: usize = 0;
    while i < n
        invariant
            n == devices@.len(),
            i <= n,
            forall|j: int| 0 <= j < i ==> devices@[j]@ != device_name@,
        decreases n - i,
    {
        if devices[i] == *device_name {
            return i;
        }
        i = i + 1;
    }
    0
}

} // verus!
