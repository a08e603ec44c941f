//! Choosing the microphone: by a keyword of its name, or the system default.
use crate::text::{chars_eq_str, chars_of, contains_chars, contains_seq};
use vstd::prelude::*;

verus! {

/// Which input device to record from.
#[derive(Clone, Copy, Debug, PartialEq, Eq)]
pub enum DeviceChoice {
    /// The system default input device.
    Default,
    /// The input device at this index of the listed names.
    Named(usize),
}

/// An empty keyword or `default` selects the default device; otherwise the first listed
/// device whose name contains the keyword, falling back to the default device.
pub open spec fn device_choice_spec(mic: Seq<char>, names: Seq<Seq<char>>) -> DeviceChoice {
    if mic.len() == 0 || mic == "default"@ {
        DeviceChoice::Default
    } else if exists|j: int| 0 <= j < names.len() && contains_seq(#[trigger] names[j], mic) {
        let j = choose|j: int|
            0 <= j < names.len() && contains_seq(#[trigger] names[j], mic) && forall|i: int|
                0 <= i < j ==> !contains_seq(#[trigger] names[i], mic);
        DeviceChoice::Named(j as usize)
    } else {
        DeviceChoice::Default
    }
}

/// Picks the input device for the `mic` setting among the listed device names.
pub fn pick_device(mic: &str, names: &Vec<String>) -> (r: DeviceChoice)
    ensures
        r == device_choice_spec(mic@, names@.map_values(|n: String| n@)),
        r matches DeviceChoice::Named(j) ==> j < names@.len(),
{
    let ghost nv = names@.map_values(|n: String| n@);
    let m = chars_of(mic);
    if m.len() == 0 || chars_eq_str(&m, "default") {
        return DeviceChoice::Default;
    }
    let mut i: usize = 0;
    while i < names.len()
        invariant
            i <= names@.len(),
            nv == names@.map_values(|n: String| n@),
            m@ == mic@,
            !(mic@.len() == 0 || mic@ == "default"@),
            forall|q: int| 0 <= q < i ==> !contains_seq(#[trigger] nv[q], mic@),
        decreases names@.len() - i,
    {
        let n = chars_of(names[i].as_str());
        if contains_chars(n.as_slice(), m.as_slice()) {
            proof {
                assert(nv[i as int] == n@);
                let w = choose|j: int|
                    0 <= j < nv.len() && contains_seq(#[trigger] nv[j], mic@) && forall|q: int|
                        0 <= q < j ==> !contains_seq(#[trigger] nv[q], mic@);
                assert(0 <= i < nv.len() && contains_seq(nv[i as int], mic@) && forall|q: int|
                    0 <= q < i ==> !contains_seq(#[trigger] nv[q], mic@));
                if w < i {
                    assert(!contains_seq(nv[w], mic@));
                } else if w > i {
                    assert(!contains_seq(nv[i as int], mic@));
                }
                assert(w == i);
            }
            return DeviceChoice::Named(i);
        }
        i += 1;
    }
    DeviceChoice::Default
}

} // verus!
